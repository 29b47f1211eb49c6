//! Snowflake identifiers.
use std::marker::PhantomData;
use vstd::prelude::*;

use crate::text::{parse_u64, parse_u64_seq};

pub mod marker;

verus! {

/// The first millisecond Discord issues an id for. Snowflakes count from
/// here rather than from the Unix epoch.
pub const DISCORD_EPOCH_MS: u64 = 1_420_070_400_000;

/// A day in milliseconds: the slack allowed for a clock that is behind the
/// server's.
pub const CLOCK_SLACK_MS: u64 = 86_400_000;

/// A Discord snowflake, tagged with what it identifies. Never zero.
#[derive(Copy, Debug, PartialEq, Eq, PartialOrd, Ord, Hash)]
pub struct Id<T> {
    value: u64,
    marker: PhantomData<T>,
}

/// The snowflake Discord's layout gives a moment and its three counters:
/// 42 bits of milliseconds since Discord's epoch (saturating at the epoch),
/// five bits of worker, five of process and twelve of increment.
pub open spec fn snowflake(created_ms: u64, worker: u64, process: u64, increment: u64) -> u64 {
    let elapsed: u64 = if created_ms >= DISCORD_EPOCH_MS { (created_ms - DISCORD_EPOCH_MS) as u64 } else { 0 };
    ((elapsed << 22u64) | ((worker & 0x1f) << 17u64) | ((process & 0x1f) << 12u64) | (increment & 0xfff)) as u64
}

/// The millisecond a snowflake claims it was issued at.
pub open spec fn created_ms_of(value: u64) -> int {
    (value >> 22u64) + DISCORD_EPOCH_MS
}

impl<T> Id<T> {
    /// The number this id holds.
    pub closed spec fn value(self) -> u64 {
        self.value
    }

    #[verifier::type_invariant]
    closed spec fn nonzero(self) -> bool {
        self.value != 0
    }

    /// An id holding `value`, which must not be zero.
    pub fn new(value: u64) -> (id: Self)
        requires
            value != 0,
        ensures
            id.value() == value,
    {
        Id { value, marker: PhantomData }
    }

    /// An id holding `value`, or `None` for zero.
    pub fn new_checked(value: u64) -> (id: Option<Self>)
        ensures
            id is Some <==> value != 0,
            id matches Some(i) ==> i.value() == value,
    {
        if value == 0 {
            None
        } else {
            Some(Id { value, marker: PhantomData })
        }
    }

    /// The number this id holds.
    pub fn get(&self) -> (value: u64)
        ensures
            value == self.value(),
            value != 0,
    {
        proof { use_type_invariant(self); }
        self.value
    }

    /// A snowflake for a moment in time. The lower bits carry no meaning to
    /// a client, but they are not always zero on a real id.
    pub fn from_parts(created_ms: u64, worker: u64, process: u64, increment: u64) -> (id: Self)
        requires
            snowflake(created_ms, worker, process, increment) != 0,
        ensures
            id.value() == snowflake(created_ms, worker, process, increment),
    {
        let elapsed = created_ms.saturating_sub(DISCORD_EPOCH_MS);
        let value = (elapsed << 22u64) | ((worker & 0x1f) << 17u64) | ((process & 0x1f) << 12u64) | (increment & 0xfff);
        Id::new(value)
    }

    /// When Discord would have issued this id, in milliseconds.
    pub fn created_at_ms(self) -> (ms: u64)
        ensures
            ms == created_ms_of(self.value()),
    {
        let v = self.get();
        assert(v >> 22u64 <= 0x3ff_ffff_ffff) by (bit_vector);
        (v >> 22u64) + DISCORD_EPOCH_MS
    }

    /// Whether this could be an id Discord actually issued: its timestamp is
    /// after Discord existed and not more than a day ahead of `now_ms`.
    pub fn is_plausible(self, now_ms: u64) -> (b: bool)
        ensures
            b == (created_ms_of(self.value()) > DISCORD_EPOCH_MS && created_ms_of(self.value())
                <= if now_ms + CLOCK_SLACK_MS <= u64::MAX { now_ms + CLOCK_SLACK_MS } else { u64::MAX as int }),
    {
        let created = self.created_at_ms();
        created > DISCORD_EPOCH_MS && created <= now_ms.saturating_add(CLOCK_SLACK_MS)
    }

    /// An id as Discord writes it in JSON: a decimal string, or a number.
    /// Zero and anything that is not a `u64` are refused.
    pub fn from_wire_str(s: &str) -> (id: Option<Self>)
        ensures
            id is Some <==> (parse_u64_seq(s@) matches Some(v) && v != 0),
            id matches Some(i) ==> parse_u64_seq(s@) == Some(i.value()),
    {
        match parse_u64(s) {
            Some(v) => Self::new_checked(v),
            None => None,
        }
    }
}

impl<T> Clone for Id<T> {
    fn clone(&self) -> (r: Self)
        ensures
            r == *self,
    {
        proof { use_type_invariant(self); }
        Id { value: self.value, marker: PhantomData }
    }
}

impl<T> View for Id<T> {
    type V = u64;

    open spec fn view(&self) -> u64 {
        self.value()
    }
}

/// Law: the moment an id was built for is the moment it reports, for every
/// moment from Discord's epoch through the 42 bits of milliseconds a
/// snowflake holds, whatever the counters.
pub proof fn law_created_at_round_trips(created_ms: u64, worker: u64, process: u64, increment: u64)
    requires
        DISCORD_EPOCH_MS <= created_ms,
        created_ms - DISCORD_EPOCH_MS < 0x400_0000_0000,
    ensures
        created_ms_of(snowflake(created_ms, worker, process, increment)) == created_ms,
{
    let e: u64 = (created_ms - DISCORD_EPOCH_MS) as u64;
    assert((((e << 22u64) | ((worker & 0x1f) << 17u64) | ((process & 0x1f) << 12u64) | (increment & 0xfff)) as u64) >> 22u64 == e) by (bit_vector)
        requires
            e < 0x400_0000_0000,
    ;
}

/// Law: a snowflake built after Discord's epoch is never zero, so building
/// one never needs a check.
pub proof fn law_snowflake_after_epoch_is_nonzero(created_ms: u64, worker: u64, process: u64, increment: u64)
    requires
        DISCORD_EPOCH_MS < created_ms,
        created_ms - DISCORD_EPOCH_MS < 0x400_0000_0000,
    ensures
        snowflake(created_ms, worker, process, increment) != 0,
{
    law_created_at_round_trips(created_ms, worker, process, increment);
    assert(0u64 >> 22u64 == 0) by (bit_vector);
}

} // verus!
