//! The shared secret for two-factor enrolment.
//!
//! The authenticator app computes the one-time codes; all that is needed
//! here is a secret to hand over, in the base32 (RFC 4648) it reads.
use vstd::prelude::*;

use crate::text::{is_ascii_alphanumeric, owned, push_char, push_str};
use vstd::string::StringSliceAdditionalSpecFns;

verus! {

/// 20 bytes: the length RFC 4226 recommends for an HMAC-SHA1 secret, and
/// what every authenticator app expects.
pub const SECRET_BYTES: usize = 20;

/// Twenty random bytes from the operating system (`rand::rngs::OsRng`,
/// `RngCore::fill_bytes`). Nothing is promised of their values; like the
/// call it makes, it panics if the operating system has no randomness to
/// give.
#[verifier::external_body]
fn os_random_bytes() -> (b: Vec<u8>)
    ensures
        b@.len() == SECRET_BYTES,
{
    let mut bytes = [0u8; SECRET_BYTES];
    rand::RngCore::fill_bytes(&mut rand::rngs::OsRng, &mut bytes);
    bytes.to_vec()
}

// ---------------------------------------------------------------------------
// Base32
// ---------------------------------------------------------------------------

/// The base32 alphabet: `A`-`Z`, then `2`-`7`.
pub open spec fn base32_char(d: u64) -> char {
    if d < 26 { (65 + d) as char } else { (24 + d) as char }
}

pub open spec fn is_base32_char(c: char) -> bool {
    ('A' <= c && c <= 'Z') || ('2' <= c && c <= '7')
}

pub open spec fn byte_at(b: Seq<u8>, i: int) -> u64 {
    if 0 <= i < b.len() { b[i] as u64 } else { 0 }
}

/// The forty bits of five-byte chunk `c`, zero-padded past the end.
pub open spec fn chunk_value(b: Seq<u8>, c: int) -> u64 {
    (byte_at(b, 5 * c) << 32u64) | (byte_at(b, 5 * c + 1) << 24u64) | (byte_at(b, 5 * c + 2) << 16u64) | (
    byte_at(b, 5 * c + 3) << 8u64) | byte_at(b, 5 * c + 4)
}

/// The five bits output character `k` encodes.
pub open spec fn base32_digit(b: Seq<u8>, k: int) -> u64 {
    (chunk_value(b, k / 8) >> ((35 - 5 * (k % 8)) as u64)) & 31u64
}

/// Enough characters for every bit, with no padding: ceil(8n / 5).
pub open spec fn base32_len(n: nat) -> nat {
    (8 * n + 4) / 5
}

/// RFC 4648 base32 of `b`, unpadded.
pub open spec fn base32(b: Seq<u8>) -> Seq<char> {
    Seq::new(base32_len(b.len()), |k: int| base32_char(base32_digit(b, k)))
}

fn alphabet_char(d: u64) -> (c: char)
    requires
        d < 32,
    ensures
        c == base32_char(d),
        is_base32_char(c),
{
    if d < 26 {
        crate::text::char_from_ascii((65 + d) as u8)
    } else {
        crate::text::char_from_ascii((24 + d) as u8)
    }
}

fn byte_or_zero(b: &[u8], i: usize) -> (v: u64)
    ensures
        v == byte_at(b@, i as int),
{
    if i < b.len() { b[i] as u64 } else { 0 }
}

proof fn lemma_chunk_index(c: int, idx: int)
    requires
        0 <= c,
        0 <= idx < 8,
    ensures
        (8 * c + idx) / 8 == c,
        (8 * c + idx) % 8 == idx,
{
    assert((8 * c + idx) / 8 == c && (8 * c + idx) % 8 == idx) by (nonlinear_arith)
        requires
            0 <= c,
            0 <= idx < 8,
    ;
}

proof fn lemma_base32_total(n: int, full: int, r: int)
    requires
        0 <= full,
        0 <= r < 5,
        n == 5 * full + r,
    ensures
        8 * full + (8 * r + 4) / 5 == (8 * n + 4) / 5,
{
    assert(8 * full + (8 * r + 4) / 5 == (8 * n + 4) / 5) by (nonlinear_arith)
        requires
            0 <= full,
            0 <= r < 5,
            n == 5 * full + r,
    ;
}

/// RFC 4648 base32 of `bytes`, unpadded.
pub fn base32_encode(bytes: &[u8]) -> (s: String)
    ensures
        s@ == base32(bytes@),
{
    let n = bytes.len();
    let mut out = String::new();
    let mut start: usize = 0;
    let ghost mut c: int = 0;
    while start < n
        invariant
            n == bytes@.len(),
            start == 5 * c,
            0 <= c,
            start <= n,
            out@ == Seq::new((8 * c) as nat, |k: int| base32_char(base32_digit(bytes@, k))),
        decreases n - start,
    {
        let len: usize = if n - start >= 5 { 5 } else { n - start };
        let value = (byte_or_zero(bytes, start) << 32u64) | (byte_or_zero(bytes, start + 1) << 24u64) | (
        byte_or_zero(bytes, start + 2) << 16u64) | (byte_or_zero(bytes, start + 3) << 8u64) | byte_or_zero(
            bytes,
            start + 4,
        );
        assert(value == chunk_value(bytes@, c));
        let characters: usize = (len * 8 + 4) / 5;
        let mut index: usize = 0;
        while index < characters
            invariant
                n == bytes@.len(),
                start == 5 * c,
                0 <= c,
                value == chunk_value(bytes@, c),
                characters <= 8,
                index <= characters,
                out@ == Seq::new((8 * c + index) as nat, |k: int| base32_char(base32_digit(bytes@, k))),
            decreases characters - index,
        {
            let shift = 35 - (index as u64) * 5;
            let digit = (value >> shift) & 0x1f;
            assert(digit < 32) by (bit_vector)
                requires
                    digit == (value >> shift) & 0x1f,
            ;
            proof {
                lemma_chunk_index(c, index as int);
            }
            assert(digit == base32_digit(bytes@, 8 * c + index));
            push_char(&mut out, alphabet_char(digit));
            assert(out@ =~= Seq::new((8 * c + index + 1) as nat, |k: int| base32_char(base32_digit(bytes@, k))));
            index = index + 1;
        }
        if len < 5 {
            proof {
                lemma_base32_total(n as int, c, len as int);
                assert(out@ =~= base32(bytes@));
            }
            return out;
        }
        start = start + 5;
        proof {
            c = c + 1;
        }
        assert(out@ =~= Seq::new((8 * c) as nat, |k: int| base32_char(base32_digit(bytes@, k))));
    }
    proof {
        lemma_base32_total(n as int, c, 0);
        assert(out@ =~= base32(bytes@));
    }
    out
}

/// Law: base32 output is ceil(8n / 5) characters, all from the alphabet.
pub proof fn law_base32_shape(b: Seq<u8>)
    ensures
        base32(b).len() == base32_len(b.len()),
        forall|k: int| 0 <= k < base32(b).len() ==> is_base32_char(#[trigger] base32(b)[k]),
{
    assert forall|k: int| 0 <= k < base32(b).len() implies is_base32_char(#[trigger] base32(b)[k]) by {
        let d = base32_digit(b, k);
        let v = chunk_value(b, k / 8);
        let sh = (35 - 5 * (k % 8)) as u64;
        assert(d == (v >> sh) & 31u64);
        assert(d < 32) by (bit_vector)
            requires
                d == (v >> sh) & 31u64,
        ;
    }
}

// ---------------------------------------------------------------------------
// Percent-encoding
// ---------------------------------------------------------------------------

/// RFC 3986's unreserved bytes: ASCII letters and digits and `-_.~`.
pub open spec fn is_unreserved(b: u8) -> bool {
    is_ascii_alphanumeric(b as char) || b == 45 || b == 95 || b == 46 || b == 126
}

pub open spec fn hex_digit(d: u8) -> char {
    if d < 10 { (48 + d) as char } else { (55 + d) as char }
}

pub open spec fn percent_byte(b: u8) -> Seq<char> {
    if is_unreserved(b) {
        seq![b as char]
    } else {
        seq!['%', hex_digit(b / 16), hex_digit(b % 16)]
    }
}

/// Each unreserved byte as itself and every other as `%XX`, upper-case hex.
pub open spec fn percent_encoded(bytes: Seq<u8>) -> Seq<char>
    decreases bytes.len(),
{
    if bytes.len() == 0 {
        Seq::empty()
    } else {
        percent_encoded(bytes.drop_last()) + percent_byte(bytes.last())
    }
}

/// A character that cannot end a URI's path or start its query or
/// fragment.
pub open spec fn is_uri_safe(c: char) -> bool {
    is_ascii_alphanumeric(c) || c == '-' || c == '_' || c == '.' || c == '~' || c == '%'
}

fn hex_char(d: u8) -> (c: char)
    requires
        d < 16,
    ensures
        c == hex_digit(d),
{
    if d < 10 {
        crate::text::char_from_ascii(48 + d)
    } else {
        crate::text::char_from_ascii(55 + d)
    }
}

/// Percent-encode the UTF-8 bytes of `value`, all but the unreserved ones.
pub fn percent_encode(value: &str) -> (s: String)
    ensures
        s@ == percent_encoded(value.spec_bytes()),
{
    let bytes = value.as_bytes();
    let n = bytes.len();
    let mut out = String::new();
    let mut i: usize = 0;
    while i < n
        invariant
            n == bytes@.len(),
            i <= n,
            out@ == percent_encoded(bytes@.take(i as int)),
        decreases n - i,
    {
        let b = bytes[i];
        proof {
            assert(bytes@.take(i + 1).drop_last() =~= bytes@.take(i as int));
        }
        let unreserved = (48 <= b && b <= 57) || (65 <= b && b <= 90) || (97 <= b && b <= 122) || b == 45
            || b == 95 || b == 46 || b == 126;
        if unreserved {
            push_char(&mut out, crate::text::char_from_ascii(b));
        } else {
            push_char(&mut out, '%');
            push_char(&mut out, hex_char(b / 16));
            push_char(&mut out, hex_char(b % 16));
        }
        assert(out@ =~= percent_encoded(bytes@.take(i + 1)));
        i = i + 1;
    }
    assert(bytes@.take(n as int) =~= bytes@);
    out
}

/// Law: percent-encoded text holds only unreserved characters and `%`, so
/// it cannot break out of a URI's path.
pub proof fn law_percent_encoding_is_uri_safe(bytes: Seq<u8>)
    ensures
        forall|i: int| 0 <= i < percent_encoded(bytes).len() ==> is_uri_safe(#[trigger] percent_encoded(bytes)[i]),
    decreases bytes.len(),
{
    if bytes.len() > 0 {
        law_percent_encoding_is_uri_safe(bytes.drop_last());
        let prefix = percent_encoded(bytes.drop_last());
        let b = bytes.last();
        assert forall|i: int| 0 <= i < percent_encoded(bytes).len() implies is_uri_safe(#[trigger] percent_encoded(bytes)[i]) by {
            if i >= prefix.len() {
                assert(b / 16 < 16 && b % 16 < 16);
            }
        }
    }
}

// ---------------------------------------------------------------------------
// The secret
// ---------------------------------------------------------------------------

/// `s` in groups of four characters, separated by single spaces.
pub open spec fn grouped_seq(s: Seq<char>) -> Seq<char>
    decreases s.len(),
{
    if s.len() <= 4 {
        s
    } else {
        s.take(4) + seq![' '] + grouped_seq(s.skip(4))
    }
}

/// `s` with its spaces taken out.
pub open spec fn without_spaces(s: Seq<char>) -> Seq<char>
    decreases s.len(),
{
    if s.len() == 0 {
        s
    } else if s[0] == ' ' {
        without_spaces(s.drop_first())
    } else {
        seq![s[0]] + without_spaces(s.drop_first())
    }
}

/// A freshly generated enrolment secret, as base32 text.
#[derive(Clone, Debug, PartialEq, Eq)]
pub struct TotpSecret(String);

impl TotpSecret {
    pub closed spec fn text(&self) -> Seq<char> {
        self.0@
    }

    /// Generate one from the operating system's randomness: the base32 of
    /// twenty bytes, 32 characters.
    pub fn generate() -> (s: Self)
        ensures
            exists|b: Seq<u8>| b.len() == SECRET_BYTES && s.text() == #[trigger] base32(b),
            s.text().len() == 32,
    {
        let bytes = os_random_bytes();
        let text = base32_encode(bytes.as_slice());
        assert(base32_len(20) == 32);
        TotpSecret(text)
    }

    /// The base32 secret, for typing into an authenticator app by hand.
    pub fn as_str(&self) -> (s: &str)
        ensures
            s@ == self.text(),
    {
        self.0.as_str()
    }

    /// The secret in groups of four, which is how it is read aloud and typed.
    pub fn grouped(&self) -> (g: String)
        ensures
            g@ == grouped_seq(self.text()),
    {
        let s = self.0.as_str();
        let n = s.unicode_len();
        let mut out = String::new();
        let mut i: usize = 0;
        proof {
            assert(s@.skip(0) =~= s@);
            assert(out@ + grouped_seq(s@) =~= grouped_seq(s@));
        }
        while n - i > 4
            invariant
                n == s@.len(),
                i <= n,
                out@ + grouped_seq(s@.skip(i as int)) == grouped_seq(s@),
            decreases n - i,
        {
            let ghost before = out@;
            push_str(&mut out, s.substring_char(i, i + 4));
            push_char(&mut out, ' ');
            proof {
                let rest = s@.skip(i as int);
                assert(rest.take(4) =~= s@.subrange(i as int, i + 4));
                assert(rest.skip(4) =~= s@.skip(i + 4));
                assert(out@ + grouped_seq(s@.skip(i + 4)) =~= before + grouped_seq(rest));
            }
            i = i + 4;
        }
        let ghost before = out@;
        push_str(&mut out, s.substring_char(i, n));
        proof {
            assert(s@.subrange(i as int, n as int) =~= s@.skip(i as int));
        }
        out
    }

    /// The `otpauth://` URI an authenticator app scans, the account name
    /// percent-encoded so no character of it can end the path.
    pub fn otpauth_uri(&self, account: &str) -> (u: String)
        ensures
            u@ == "otpauth://totp/Discord:"@ + percent_encoded(account.spec_bytes()) + "?secret="@ + self.text()
                + "&issuer=Discord"@,
    {
        let mut u = owned("otpauth://totp/Discord:");
        let encoded = percent_encode(account);
        push_str(&mut u, encoded.as_str());
        push_str(&mut u, "?secret=");
        push_str(&mut u, self.0.as_str());
        push_str(&mut u, "&issuer=Discord");
        u
    }

    /// Rebuild from a secret already generated.
    pub fn from_base32(value: &str) -> (s: Self)
        ensures
            s.text() == value@,
    {
        TotpSecret(owned(value))
    }
}

/// Law: taking the spaces out of the grouped form gives back the secret,
/// for a secret with no spaces of its own (base32 has none).
pub proof fn law_grouping_keeps_the_secret(s: Seq<char>)
    requires
        forall|i: int| 0 <= i < s.len() ==> s[i] != ' ',
    ensures
        without_spaces(grouped_seq(s)) == s,
    decreases s.len(),
{
    lemma_without_spaces_plain(s);
    if s.len() > 4 {
        law_grouping_keeps_the_secret(s.skip(4));
        lemma_without_spaces_append(s.take(4) + seq![' '], grouped_seq(s.skip(4)));
        lemma_without_spaces_append(s.take(4), seq![' ']);
        lemma_without_spaces_plain(s.take(4));
        assert(without_spaces(seq![' ']) =~= Seq::<char>::empty()) by {
            assert(seq![' '].drop_first() =~= Seq::<char>::empty());
            assert(without_spaces(Seq::<char>::empty()) == Seq::<char>::empty());
            assert(seq![' '][0] == ' ');
        }
        assert(s.take(4) + s.skip(4) =~= s);
    }
}

proof fn lemma_without_spaces_plain(s: Seq<char>)
    requires
        forall|i: int| 0 <= i < s.len() ==> s[i] != ' ',
    ensures
        without_spaces(s) == s,
    decreases s.len(),
{
    if s.len() > 0 {
        lemma_without_spaces_plain(s.drop_first());
        assert(seq![s[0]] + s.drop_first() =~= s);
    }
}

proof fn lemma_without_spaces_append(a: Seq<char>, b: Seq<char>)
    ensures
        without_spaces(a + b) == without_spaces(a) + without_spaces(b),
    decreases a.len(),
{
    if a.len() == 0 {
        assert(a + b =~= b);
        assert(Seq::<char>::empty() + without_spaces(b) =~= without_spaces(b));
    } else {
        lemma_without_spaces_append(a.drop_first(), b);
        assert((a + b).drop_first() =~= a.drop_first() + b);
        if a[0] != ' ' {
            assert(seq![a[0]] + (without_spaces(a.drop_first()) + without_spaces(b)) =~= (seq![a[0]] + without_spaces(a.drop_first())) + without_spaces(b));
        }
    }
}

} // verus!
