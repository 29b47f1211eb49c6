# concord

The core of a Discord client, verified with Verus.

`src/` is the library. Everything in it is checked by Verus against its
contracts: snowflake ids, the JSON model and its serialiser, message and
media rules, presence, permissions, TOTP secrets, the request bodies and
response parsing of every REST area (account, guild settings, roles,
channels, moderation, onboarding, stickers, stage, ...), and the gateway's
decision logic: session and resume bookkeeping, what each frame means, the
paced writer, the guild member request scheduler, reconnect backoff, the
zlib transport and the parsing of voice and stream dispatches. Laws that
span functions are stated as public proof functions named `law_*`.

A handful of functions at the edge are trusted rather than proved, each
with a doc comment that says what it calls and what its contract claims: base64 encoding, URL
parsing, zlib inflation, UTF-8 decoding, random numbers and the clock.

`app/` is the plumbing Verus does not see: the HTTP client that performs
each REST request, the gateway websocket loop with its heartbeat and
writer tasks, the on-disk cache of the gateway URL, and the soundboard
types that carry a floating-point volume. It hands the library plain values
and carries out what the library decides.

`tests/` runs the library on concrete values.
