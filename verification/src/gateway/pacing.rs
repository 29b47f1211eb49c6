//! The send budget of one connection, the order the writer sends in, and
//! the backoff between connections.
//!
//! Times are milliseconds on a monotonic clock the caller reads.
use vstd::prelude::*;

use rand::Rng;

use crate::gateway::frame::ConnectionOutcome;
use crate::gateway::session::{opt_view, MalformedFrameRecovery, SessionState};

verus! {

/// Discord's budget of gateway events per connection, per window.
pub const GATEWAY_SEND_LIMIT: usize = 120;
pub const GATEWAY_SEND_WINDOW_MS: u64 = 60_000;

/// When each recent event was sent, oldest first.
#[derive(Debug, Default)]
pub struct GatewaySendWindow {
    pub sent_at: Vec<u64>,
}

/// A send at `t` has left the window by `now`.
pub open spec fn left_window(t: u64, now: u64) -> bool {
    now >= t && now - t >= GATEWAY_SEND_WINDOW_MS
}

/// The sends still in the window: those at the front that have left it are
/// dropped.
pub open spec fn in_window(s: Seq<u64>, now: u64) -> Seq<u64>
    decreases s.len(),
{
    if s.len() > 0 && left_window(s[0], now) {
        in_window(s.drop_first(), now)
    } else {
        s
    }
}

pub open spec fn sat_add(a: u64, b: u64) -> u64 {
    if a + b > u64::MAX { u64::MAX } else { (a + b) as u64 }
}

pub open spec fn sat_sub(a: u64, b: u64) -> u64 {
    if a >= b { (a - b) as u64 } else { 0 }
}

impl GatewaySendWindow {
    /// How long the next event must wait: none while the window holds fewer
    /// sends than the budget, otherwise until its oldest send leaves it.
    pub fn delay_at(&mut self, now: u64) -> (d: Option<u64>)
        ensures
            final(self).sent_at@ == in_window(old(self).sent_at@, now),
            d == if final(self).sent_at@.len() < GATEWAY_SEND_LIMIT {
                None
            } else {
                Some(sat_sub(sat_add(final(self).sent_at@[0], GATEWAY_SEND_WINDOW_MS), now))
            },
    {
        let ghost s0 = self.sent_at@;
        let n = self.sent_at.len();
        let mut cut: usize = 0;
        proof {
            assert(s0.skip(0) =~= s0);
        }
        while cut < n
            invariant
                n == s0.len(),
                self.sent_at@ == s0,
                cut <= n,
                in_window(s0, now) == in_window(s0.skip(cut as int), now),
            ensures
                cut <= n,
                in_window(s0, now) == in_window(s0.skip(cut as int), now),
                cut < n ==> !left_window(s0[cut as int], now),
            decreases n - cut,
        {
            let t = self.sent_at[cut];
            if !(now >= t && now - t >= GATEWAY_SEND_WINDOW_MS) {
                break;
            }
            proof {
                assert(s0.skip(cut as int).drop_first() =~= s0.skip(cut + 1));
            }
            cut = cut + 1;
        }
        proof {
            if cut == n {
                assert(s0.skip(cut as int).len() == 0);
            } else {
                assert(s0.skip(cut as int)[0] == s0[cut as int]);
            }
        }
        let tail = self.sent_at.split_off(cut);
        self.sent_at = tail;
        proof {
            assert(self.sent_at@ =~= s0.skip(cut as int));
        }
        if self.sent_at.len() < GATEWAY_SEND_LIMIT {
            return None;
        }
        let oldest = self.sent_at[0];
        Some(oldest.saturating_add(GATEWAY_SEND_WINDOW_MS).saturating_sub(now))
    }

    /// An event went out at `now`.
    pub fn record(&mut self, now: u64)
        ensures
            final(self).sent_at@ == old(self).sent_at@.push(now),
    {
        self.sent_at.push(now);
    }
}

/// What the writer does next.
#[derive(Clone, Copy, Debug, PartialEq, Eq, Structural)]
pub enum SenderStep {
    /// Both queues are closed and empty: stop.
    Stop,
    /// Nothing is queued: wait for a request.
    WaitForRequest,
    /// The budget is spent: wait this long (or for an urgent request).
    Wait(u64),
    /// Send the oldest urgent request.
    SendUrgent,
    /// Send the oldest normal request.
    SendNormal,
}

/// The writer's next move: urgent traffic first, and nothing beyond the
/// budget. A send is recorded in the window.
pub fn sender_step(urgent_queued: usize, normal_queued: usize, urgent_open: bool, normal_open: bool, window: &mut GatewaySendWindow, now: u64) -> (step: SenderStep)
    ensures
        urgent_queued == 0 && normal_queued == 0 ==> step == (if !urgent_open && !normal_open { SenderStep::Stop } else { SenderStep::WaitForRequest })
            && final(window).sent_at@ == old(window).sent_at@,
        !(urgent_queued == 0 && normal_queued == 0) ==> {
            let w = in_window(old(window).sent_at@, now);
            if w.len() >= GATEWAY_SEND_LIMIT {
                step == SenderStep::Wait(sat_sub(sat_add(w[0], GATEWAY_SEND_WINDOW_MS), now)) && final(window).sent_at@ == w
            } else {
                &&& step == if urgent_queued > 0 { SenderStep::SendUrgent } else { SenderStep::SendNormal }
                &&& final(window).sent_at@ == w.push(now)
            }
        },
{
    if urgent_queued == 0 && normal_queued == 0 {
        if !urgent_open && !normal_open {
            return SenderStep::Stop;
        }
        return SenderStep::WaitForRequest;
    }
    if let Some(delay) = window.delay_at(now) {
        return SenderStep::Wait(delay);
    }
    window.record(now);
    if urgent_queued > 0 {
        SenderStep::SendUrgent
    } else {
        SenderStep::SendNormal
    }
}

/// The writer never sends more than the budget in any window: a send is
/// only chosen while fewer than the budget remain in it, and it adds one.
pub proof fn law_sends_stay_within_the_budget(before: Seq<u64>, now: u64, after: Seq<u64>)
    requires
        in_window(before, now).len() < GATEWAY_SEND_LIMIT,
        after == in_window(before, now).push(now),
    ensures
        after.len() <= GATEWAY_SEND_LIMIT,
{
}

/// The first and the longest wait between connections.
pub const RECONNECT_BASE_DELAY_MS: u64 = 500;
pub const RECONNECT_MAX_DELAY_MS: u64 = 30_000;

/// A number from 0 to `max`, inclusive, drawn by
/// `rand::thread_rng().gen_range(0..=max)`. The contract claims only the
/// range, which `gen_range` documents for an inclusive range.
#[verifier::external_body]
fn random_up_to(max: u64) -> (r: u64)
    ensures
        r <= max,
{
    rand::thread_rng().gen_range(0..=max)
}

/// What the reconnect loop does after a connection ended.
#[derive(Clone, Copy, Debug, PartialEq, Eq, Structural)]
pub enum ReconnectStep {
    /// Leave the loop; tell the client the gateway closed unless the end
    /// was fatal (the error is already shown).
    Stop { publish_closed: bool },
    /// Wait a random time from zero to `delay_bound_ms` (see
    /// `reconnect_delay`), then connect again with `next_backoff_ms` as the
    /// backoff. The published session is to be cleared first when it was
    /// thrown away.
    Retry { clear_published_session: bool, delay_bound_ms: u64, next_backoff_ms: u64 },
}

pub open spec fn doubled_capped(b: u64) -> u64 {
    if 2 * b >= RECONNECT_MAX_DELAY_MS { RECONNECT_MAX_DELAY_MS } else { (2 * b) as u64 }
}

/// After a connection ends: stop on `Stop` and `Fatal`; otherwise forget a
/// session that must re-identify, wait a random time up to the backoff
/// (reset to the base after a connection that reached READY or RESUMED),
/// and double the backoff up to its cap. Exponential backoff with full
/// jitter, so a flapping network does not hammer Discord: the wait is
/// drawn by `reconnect_delay` from the bound this step gives.
pub fn after_connection(outcome: ConnectionOutcome, session: &mut SessionState, backoff_ms: u64) -> (step: ReconnectStep)
    requires
        backoff_ms <= RECONNECT_MAX_DELAY_MS,
    ensures
        outcome == ConnectionOutcome::Stop ==> step == (ReconnectStep::Stop { publish_closed: true }),
        outcome == ConnectionOutcome::Fatal ==> step == (ReconnectStep::Stop { publish_closed: false }),
        outcome == ConnectionOutcome::Reidentify ==> {
            &&& final(session).session_id is None
            &&& final(session).resume_url is None
            &&& final(session).last_sequence is None
            &&& final(session).malformed_frame_recovery == MalformedFrameRecovery::NotAttempted
        },
        outcome != ConnectionOutcome::Reidentify ==> {
            &&& opt_view(final(session).session_id) == opt_view(old(session).session_id)
            &&& opt_view(final(session).resume_url) == opt_view(old(session).resume_url)
            &&& final(session).last_sequence == old(session).last_sequence
            &&& final(session).malformed_frame_recovery == old(session).malformed_frame_recovery
        },
        final(session).has_received_ready == old(session).has_received_ready,
        (outcome == ConnectionOutcome::Resume || outcome == ConnectionOutcome::Reidentify) ==> {
            let base = if old(session).established { RECONNECT_BASE_DELAY_MS } else { backoff_ms };
            &&& step matches ReconnectStep::Retry { clear_published_session, delay_bound_ms, next_backoff_ms }
            &&& clear_published_session == (outcome == ConnectionOutcome::Reidentify)
            &&& delay_bound_ms == base
            &&& next_backoff_ms == doubled_capped(base)
            &&& !final(session).established
        },
{
    let clear = match outcome {
        ConnectionOutcome::Stop => return ReconnectStep::Stop { publish_closed: true },
        ConnectionOutcome::Fatal => return ReconnectStep::Stop { publish_closed: false },
        ConnectionOutcome::Reidentify => {
            session.clear();
            true
        },
        ConnectionOutcome::Resume => false,
    };
    let mut backoff = backoff_ms;
    if session.established {
        backoff = RECONNECT_BASE_DELAY_MS;
    }
    session.established = false;
    let doubled = backoff * 2;
    let next_backoff_ms = if doubled >= RECONNECT_MAX_DELAY_MS { RECONNECT_MAX_DELAY_MS } else { doubled };
    ReconnectStep::Retry { clear_published_session: clear, delay_bound_ms: backoff, next_backoff_ms }
}

/// The wait before reconnecting: drawn at random from zero to `bound_ms`,
/// both included (full jitter). What holds of every draw is that it stays
/// within the bound.
pub fn reconnect_delay(bound_ms: u64) -> (delay_ms: u64)
    ensures
        delay_ms <= bound_ms,
{
    random_up_to(bound_ms)
}

} // verus!
