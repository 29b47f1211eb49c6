//! Values Discord serves rather than this client deciding.
//!
//! What Discord last told us (cached), then a fresh fetch, then a compiled-in
//! default that is what Discord serves today. Times are whole seconds since
//! the Unix epoch; `None` stands for a clock reading before the epoch.
use vstd::prelude::*;

use crate::text::{concat3, has_prefix, owned, trim_end_matches_char, trim_end_matches_seq};

verus! {

/// The gateway Discord serves today.
pub const DEFAULT_GATEWAY_URL: &'static str = "wss://gateway.discord.gg";

/// How long, in seconds, a cached value is used before a refetch: a day.
pub const CACHE_LIFETIME_SECS: u64 = 86_400;

/// The largest `fetched_at` the system clock can represent as a time: a
/// later one cannot be placed on the clock at all.
pub const MAX_CLOCK_SECS: u64 = 9_223_372_036_854_775_807;

/// Values Discord serves, as last known.
pub struct RemoteConfig {
    pub gateway_url: String,
    /// When this was fetched, as Unix seconds. Zero means compiled in, which
    /// reads as fetched at the epoch and so is always stale.
    pub fetched_at: u64,
}

/// Whether a cached value fetched at `fetched_at` is due a refetch at `now`.
pub open spec fn stale_at(fetched_at: u64, now: Option<u64>) -> bool {
    ||| fetched_at > MAX_CLOCK_SECS
    ||| match now {
        None => true,
        Some(t) => t < fetched_at || t - fetched_at >= CACHE_LIFETIME_SECS,
    }
}

impl Default for RemoteConfig {
    fn default() -> (c: Self)
        ensures
            c.gateway_url@ == DEFAULT_GATEWAY_URL@,
            c.fetched_at == 0,
    {
        RemoteConfig { gateway_url: owned(DEFAULT_GATEWAY_URL), fetched_at: 0 }
    }
}

impl RemoteConfig {

    /// Whether a refetch is due. A clock that has gone backwards reads as
    /// stale rather than as fresh forever.
    pub fn is_stale(&self, now: Option<u64>) -> (b: bool)
        ensures
            b == stale_at(self.fetched_at, now),
    {
        if self.fetched_at > MAX_CLOCK_SECS {
            return true;
        }
        match now {
            None => true,
            Some(t) => t < self.fetched_at || t - self.fetched_at >= CACHE_LIFETIME_SECS,
        }
    }

    /// The websocket URL to connect to, with the query this client speaks.
    pub fn gateway_websocket_url(&self, query: &str) -> (url: String)
        ensures
            url@ == trim_end_matches_seq(self.gateway_url@, '/') + "/?"@ + query@,
    {
        let base = trim_end_matches_char(self.gateway_url.as_str(), '/');
        concat3(base, "/?", query)
    }

    /// Record a fetch at `now`; a clock before the epoch records zero.
    pub fn mark_fetched(&mut self, now: Option<u64>)
        ensures
            final(self).gateway_url == old(self).gateway_url,
            final(self).fetched_at == match now {
                Some(t) => t,
                None => 0,
            },
    {
        self.fetched_at = match now {
            Some(t) => t,
            None => 0,
        };
    }
}

/// Whether a gateway URL Discord served is one this client will use.
pub open spec fn is_websocket_url(url: Seq<char>) -> bool {
    has_prefix(url, "wss://"@)
}

/// Fold a freshly fetched gateway URL into the cached values: a URL that
/// is not a secure websocket one leaves the cached URL alone, and either way
/// the fetch time is recorded.
pub fn apply_fetched_gateway(config: &mut RemoteConfig, fetched: Option<String>, now: Option<u64>)
    ensures
        final(config).gateway_url@ == match fetched {
            Some(u) => if is_websocket_url(u@) {
                u@
            } else {
                old(config).gateway_url@
            },
            None => old(config).gateway_url@,
        },
        final(config).fetched_at == match now {
            Some(t) => t,
            None => 0,
        },
{
    if let Some(url) = fetched {
        if crate::text::starts_with(url.as_str(), "wss://") {
            config.gateway_url = url;
        }
    }
    config.mark_fetched(now);
}

/// Law: a fetch recorded at `now` is fresh at `now` and for a day less a
/// second after, and stale from a day after.
pub proof fn law_fetch_is_fresh_for_a_day(config: RemoteConfig, now: u64)
    requires
        now <= MAX_CLOCK_SECS,
    ensures
        !stale_at(now, Some(now)),
        now + CACHE_LIFETIME_SECS - 1 <= u64::MAX ==> !stale_at(now, Some((now + CACHE_LIFETIME_SECS - 1) as u64)),
        now + CACHE_LIFETIME_SECS <= u64::MAX ==> stale_at(now, Some((now + CACHE_LIFETIME_SECS) as u64)),
        now > 0 ==> stale_at(now, Some((now - 1) as u64)),
{
}

/// Law: the compiled-in default is stale at every moment, so the first run
/// always tries one fetch.
pub proof fn law_default_is_always_stale(now: Option<u64>)
    requires
        now matches Some(t) ==> t >= CACHE_LIFETIME_SECS,
    ensures
        stale_at(0, now),
{
}

} // verus!
