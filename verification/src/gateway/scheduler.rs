//! Pacing of guild member requests: one in flight at a time, per-guild
//! deadlines from RATE_LIMITED replies, and recovery across reconnects.
//!
//! Times are milliseconds on a monotonic clock the caller reads.
use vstd::prelude::*;

use crate::gateway::payloads::{by_ids_json, MAX_USER_IDS_PER_REQUEST, request_guild_members_by_ids_payload, search_guild_members_payload, search_json};
use crate::ids::marker::{GuildMarker, UserMarker};
use crate::ids::Id;
use crate::json::serialize;
use crate::text::{char_from_ascii, concat2, push_char, same_text};

verus! {

/// How long a guild waits for the answer to a member request before the
/// request is forgotten.
pub const GUILD_MEMBER_REQUEST_RESPONSE_TTL_MS: u64 = 120_000;
pub const MAX_PENDING_GUILD_MEMBER_REQUESTS: usize = 512;
pub const MAX_SENT_GUILD_MEMBER_REQUESTS: usize = 512;

#[derive(Clone, Debug, PartialEq, Eq)]
pub enum GuildMemberRequestKind {
    Search { query: String, limit: u16, presences: bool },
    ByIds { user_ids: Vec<Id<UserMarker>>, presences: bool },
}

#[derive(Clone, Debug, PartialEq, Eq)]
pub struct GuildMemberRequest {
    pub guild_id: Id<GuildMarker>,
    pub nonce: String,
    pub kind: GuildMemberRequestKind,
}

impl GuildMemberRequest {
    pub open spec fn searching(&self) -> bool {
        self.kind is Search
    }

    /// The frame that sends this request.
    pub open spec fn payload_json(&self) -> crate::json::Json {
        match self.kind {
            GuildMemberRequestKind::Search { query, limit, presences } => search_json(self.guild_id@, query@, limit, presences, self.nonce@),
            GuildMemberRequestKind::ByIds { user_ids, presences } => by_ids_json(self.guild_id@, user_ids@, presences, self.nonce@),
        }
    }

    pub fn payload(&self) -> (s: String)
        ensures
            s@ == serialize(self.payload_json()),
    {
        match &self.kind {
            GuildMemberRequestKind::Search { query, limit, presences } => search_guild_members_payload(
                self.guild_id,
                query.as_str(),
                *limit,
                *presences,
                self.nonce.as_str(),
            ),
            GuildMemberRequestKind::ByIds { user_ids, presences } => request_guild_members_by_ids_payload(
                self.guild_id,
                user_ids,
                *presences,
                self.nonce.as_str(),
            ),
        }
    }

    pub fn is_search(&self) -> (b: bool)
        ensures
            b == self.searching(),
    {
        match &self.kind {
            GuildMemberRequestKind::Search { .. } => true,
            GuildMemberRequestKind::ByIds { .. } => false,
        }
    }
}

#[derive(Clone, Debug, PartialEq, Eq)]
pub struct PendingGuildMemberRequest {
    pub request: GuildMemberRequest,
    pub send_at: u64,
}

#[derive(Debug, PartialEq, Eq)]
pub struct ScheduledGuildMemberRequest {
    pub request: GuildMemberRequest,
    pub accepted: bool,
    pub retry_at: Option<u64>,
}

#[derive(Debug, PartialEq, Eq)]
pub struct SentGuildMemberRequest {
    pub request: GuildMemberRequest,
    pub sent_at: u64,
}

#[derive(Debug)]
pub struct GuildMemberRequestScheduler {
    pub pending: Vec<PendingGuildMemberRequest>,
    pub in_flight: Option<ScheduledGuildMemberRequest>,
    pub awaiting_response: Vec<SentGuildMemberRequest>,
    /// Earliest each guild may be asked again.
    pub guild_rate_limit_until: Vec<(Id<GuildMarker>, u64)>,
    pub next_nonce: u64,
}

/// Whether a sent request has waited its answer out at `now`.
pub open spec fn expired(sent_at: u64, now: u64) -> bool {
    now >= sent_at && now - sent_at >= GUILD_MEMBER_REQUEST_RESPONSE_TTL_MS
}

/// The sent requests left once those at the front that have waited their
/// answer out are forgotten.
pub open spec fn drop_expired(a: Seq<SentGuildMemberRequest>, now: u64) -> Seq<SentGuildMemberRequest>
    decreases a.len(),
{
    if a.len() > 0 && expired(a[0].sent_at, now) {
        drop_expired(a.drop_first(), now)
    } else {
        a
    }
}

/// The deadlines still in the future at `now`, in order.
pub open spec fn live_limits(l: Seq<(Id<GuildMarker>, u64)>, now: u64) -> Seq<(Id<GuildMarker>, u64)>
    decreases l.len(),
{
    if l.len() == 0 {
        l
    } else {
        let rest = live_limits(l.drop_last(), now);
        if l.last().1 > now { rest.push(l.last()) } else { rest }
    }
}

/// A guild's deadline: its first entry.
pub open spec fn limit_of(l: Seq<(Id<GuildMarker>, u64)>, g: u64) -> Option<u64>
    decreases l.len(),
{
    if l.len() == 0 {
        None
    } else if l[0].0@ == g {
        Some(l[0].1)
    } else {
        limit_of(l.drop_first(), g)
    }
}

pub open spec fn max_u64(a: u64, b: u64) -> u64 {
    if a >= b { a } else { b }
}

/// When a request for guild `g` made at `t` may go out.
pub open spec fn request_at(l: Seq<(Id<GuildMarker>, u64)>, g: u64, t: u64) -> u64 {
    match limit_of(l, g) {
        Some(u) => max_u64(u, t),
        None => t,
    }
}

/// The pending requests with every one for guild `g` held until at least
/// `earliest`.
pub open spec fn delayed(p: Seq<PendingGuildMemberRequest>, g: u64, earliest: u64) -> Seq<PendingGuildMemberRequest> {
    Seq::new(
        p.len(),
        |i: int| if p[i].request.guild_id@ == g {
            PendingGuildMemberRequest { request: p[i].request, send_at: max_u64(p[i].send_at, earliest) }
        } else {
            p[i]
        },
    )
}

pub open spec fn hex_digit(d: u64) -> char {
    if d < 10 { ((d + 48) as u8) as char } else { ((d + 87) as u8) as char }
}

/// Sixteen lower-case hexadecimal digits of `n`, most significant first.
pub open spec fn hex16(n: u64) -> Seq<char> {
    Seq::new(16, |i: int| hex_digit(((n as int / pow16(15 - i)) % 16) as u64))
}

pub open spec fn pow16(k: int) -> int
    decreases k,
{
    if k <= 0 { 1 } else { 16 * pow16(k - 1) }
}

proof fn lemma_pow16_positive(k: int)
    ensures
        pow16(k) > 0,
    decreases k,
{
    if k > 0 {
        lemma_pow16_positive(k - 1);
    }
}

/// The nonce that tells this client's member requests apart.
pub open spec fn nonce_text(n: u64) -> Seq<char> {
    "concord-"@ + hex16(n)
}

impl Default for GuildMemberRequestScheduler {
    fn default() -> (s: Self)
        ensures
            s.pending@.len() == 0,
            s.in_flight is None,
            s.awaiting_response@.len() == 0,
            s.guild_rate_limit_until@.len() == 0,
            s.next_nonce == 1,
    {
        GuildMemberRequestScheduler {
            pending: Vec::new(),
            in_flight: None,
            awaiting_response: Vec::new(),
            guild_rate_limit_until: Vec::new(),
            next_nonce: 1,
        }
    }
}

fn hex_digit_char(d: u64) -> (c: char)
    requires
        d < 16,
    ensures
        c == hex_digit(d),
{
    if d < 10 { char_from_ascii((d + 48) as u8) } else { char_from_ascii((d + 87) as u8) }
}

fn hex16_string(n: u64) -> (s: String)
    ensures
        s@ == hex16(n),
{
    let mut s = String::new();
    let mut i: usize = 0;
    let mut divisor: u64 = 0x1000_0000_0000_0000;
    proof {
        assert(pow16(15) == 0x1000_0000_0000_0000) by {
            reveal_with_fuel(pow16, 17);
        }
    }
    while i < 16
        invariant
            i <= 16,
            s@.len() == i,
            divisor as int == pow16(15 - i),
            forall|k: int| 0 <= k < i ==> s@[k] == hex16(n)[k],
        decreases 16 - i,
    {
        proof {
            lemma_pow16_positive(15 - i);
        }
        let digit = (n / divisor) % 16;
        push_char(&mut s, hex_digit_char(digit));
        proof {
            if i < 15 {
                assert(pow16(15 - i) == 16 * pow16(15 - i - 1));
            }
        }
        if i < 15 {
            divisor = divisor / 16;
        }
        i = i + 1;
    }
    proof {
        assert(s@ =~= hex16(n));
    }
    s
}

/// The first pending search, if any.
pub open spec fn first_search_of(p: Seq<PendingGuildMemberRequest>) -> Option<int>
    decreases p.len(),
{
    if p.len() == 0 {
        None
    } else if p[0].request.searching() {
        Some(0)
    } else {
        match first_search_of(p.drop_first()) {
            Some(j) => Some(j + 1),
            None => None,
        }
    }
}

/// The last pending search for guild `g`, if any.
pub open spec fn last_search_of(p: Seq<PendingGuildMemberRequest>, g: u64) -> Option<int>
    decreases p.len(),
{
    if p.len() == 0 {
        None
    } else if p.last().request.guild_id@ == g && p.last().request.searching() {
        Some(p.len() - 1)
    } else {
        last_search_of(p.drop_last(), g)
    }
}

/// The sent requests without those carrying `nonce`.
pub open spec fn without_nonce(a: Seq<SentGuildMemberRequest>, nonce: Seq<char>) -> Seq<SentGuildMemberRequest>
    decreases a.len(),
{
    if a.len() == 0 {
        a
    } else {
        let rest = without_nonce(a.drop_first(), nonce);
        if a[0].request.nonce@ == nonce { rest } else { seq![a[0]] + rest }
    }
}

/// The deadlines once guild `g`'s is moved to `until`: its first entry
/// updated, or a new one at the end.
pub open spec fn with_limit(l: Seq<(Id<GuildMarker>, u64)>, g: Id<GuildMarker>, until: u64) -> Seq<(Id<GuildMarker>, u64)>
    decreases l.len(),
{
    if l.len() == 0 {
        seq![(g, until)]
    } else if l[0].0@ == g@ {
        l.update(0, (l[0].0, until))
    } else {
        seq![l[0]] + with_limit(l.drop_first(), g, until)
    }
}

/// The deadline a RATE_LIMITED reply leaves a guild with: the later of
/// the one it had and the new one.
pub open spec fn limit_after(l: Seq<(Id<GuildMarker>, u64)>, g: u64, retry_at: u64) -> u64 {
    match limit_of(l, g) {
        Some(c) => max_u64(c, retry_at),
        None => retry_at,
    }
}

pub proof fn lemma_with_limit(l: Seq<(Id<GuildMarker>, u64)>, g: Id<GuildMarker>, until: u64, h: u64)
    ensures
        limit_of(with_limit(l, g, until), h) == if h == g@ { Some(until) } else { limit_of(l, h) },
    decreases l.len(),
{
    let w = with_limit(l, g, until);
    if l.len() == 0 {
        assert(w =~= seq![(g, until)]);
        assert(w.drop_first() =~= Seq::<(Id<GuildMarker>, u64)>::empty());
        assert(limit_of(w, h) == if w[0].0@ == h { Some(w[0].1) } else { limit_of(w.drop_first(), h) });
    } else if l[0].0@ == g@ {
        assert(w == l.update(0, (l[0].0, until)));
        assert(w.drop_first() =~= l.drop_first());
        assert(w[0] == (l[0].0, until));
        assert(limit_of(w, h) == if w[0].0@ == h { Some(w[0].1) } else { limit_of(w.drop_first(), h) });
        assert(limit_of(l, h) == if l[0].0@ == h { Some(l[0].1) } else { limit_of(l.drop_first(), h) });
    } else {
        lemma_with_limit(l.drop_first(), g, until, h);
        assert(w == seq![l[0]] + with_limit(l.drop_first(), g, until));
        assert(w.drop_first() =~= with_limit(l.drop_first(), g, until));
        assert(w[0] == l[0]);
        assert(limit_of(w, h) == if w[0].0@ == h { Some(w[0].1) } else { limit_of(w.drop_first(), h) });
        assert(limit_of(l, h) == if l[0].0@ == h { Some(l[0].1) } else { limit_of(l.drop_first(), h) });
    }
}

/// The queue with its first `k` searches removed.
pub open spec fn drop_searches(p: Seq<PendingGuildMemberRequest>, k: nat) -> Seq<PendingGuildMemberRequest>
    decreases p.len(),
{
    if p.len() == 0 || k == 0 {
        p
    } else if p[0].request.searching() {
        drop_searches(p.drop_first(), (k - 1) as nat)
    } else {
        seq![p[0]] + drop_searches(p.drop_first(), k)
    }
}

pub open spec fn has_user(ids: Seq<Id<UserMarker>>, u: u64) -> bool {
    exists|k: int| 0 <= k < ids.len() && ids[k]@ == u
}

/// A queued request for guild `g` names user `u`, with these presences.
pub open spec fn covers(p: PendingGuildMemberRequest, g: u64, presences: bool, u: u64) -> bool {
    p.request.guild_id@ == g && match p.request.kind {
        GuildMemberRequestKind::ByIds { user_ids, presences: pr } => pr == presences && has_user(user_ids@, u),
        GuildMemberRequestKind::Search { .. } => false,
    }
}

pub open spec fn covered(p: Seq<PendingGuildMemberRequest>, g: u64, presences: bool, u: u64) -> bool {
    exists|i: int| 0 <= i < p.len() && covers(#[trigger] p[i], g, presences, u)
}

pub proof fn lemma_drop_searches_keeps_cover(p: Seq<PendingGuildMemberRequest>, k: nat, g: u64, presences: bool, u: u64)
    requires
        covered(p, g, presences, u),
    ensures
        covered(drop_searches(p, k), g, presences, u),
    decreases p.len(),
{
    if p.len() == 0 || k == 0 {
    } else {
        let i = choose|i: int| 0 <= i < p.len() && covers(#[trigger] p[i], g, presences, u);
        if p[0].request.searching() {
            assert(i != 0);
            assert(covers(p.drop_first()[i - 1], g, presences, u));
            lemma_drop_searches_keeps_cover(p.drop_first(), (k - 1) as nat, g, presences, u);
        } else if i == 0 {
            let d = seq![p[0]] + drop_searches(p.drop_first(), k);
            assert(covers(d[0], g, presences, u));
        } else {
            assert(covers(p.drop_first()[i - 1], g, presences, u));
            lemma_drop_searches_keeps_cover(p.drop_first(), k, g, presences, u);
            let rest = drop_searches(p.drop_first(), k);
            let j = choose|j: int| 0 <= j < rest.len() && covers(#[trigger] rest[j], g, presences, u);
            let d = seq![p[0]] + rest;
            assert(d[j + 1] == rest[j]);
        }
    }
}

pub open spec fn count_searches(p: Seq<PendingGuildMemberRequest>) -> nat
    decreases p.len(),
{
    if p.len() == 0 {
        0
    } else {
        (if p[0].request.searching() { 1nat } else { 0nat }) + count_searches(p.drop_first())
    }
}

pub open spec fn sat_sub(a: u64, b: u64) -> u64 {
    if a >= b { (a - b) as u64 } else { 0 }
}

/// The first of the due requests with the earliest send time.
pub open spec fn is_first_due(p: Seq<PendingGuildMemberRequest>, now: u64, i: int) -> bool {
    &&& 0 <= i < p.len()
    &&& p[i].send_at <= now
    &&& forall|k: int| 0 <= k < p.len() && p[k].send_at <= now ==> p[i].send_at <= p[k].send_at
    &&& forall|k: int| 0 <= k < i && p[k].send_at <= now ==> p[i].send_at < p[k].send_at
}

pub open spec fn is_awaited_match(a: SentGuildMemberRequest, g: u64, nonce: Option<Seq<char>>) -> bool {
    a.request.guild_id@ == g && match nonce {
        Some(n) => a.request.nonce@ == n,
        None => true,
    }
}

/// The last sent request answering to the guild (and nonce, where given).
pub open spec fn last_awaited_match(a: Seq<SentGuildMemberRequest>, g: u64, nonce: Option<Seq<char>>) -> Option<int>
    decreases a.len(),
{
    if a.len() == 0 {
        None
    } else if is_awaited_match(a.last(), g, nonce) {
        Some(a.len() - 1)
    } else {
        last_awaited_match(a.drop_last(), g, nonce)
    }
}

pub open spec fn has_search_for(p: Seq<PendingGuildMemberRequest>, g: u64) -> bool {
    exists|i: int| 0 <= i < p.len() && (#[trigger] p[i]).request.guild_id@ == g && p[i].request.searching()
}

/// The sent requests `a` put back on the queue ahead of `acc`, taken from
/// the last: each due at `earliest`, except a search whose guild has a
/// search queued in `p` or already put back, which is dropped.
pub open spec fn recovered_from(a: Seq<SentGuildMemberRequest>, p: Seq<PendingGuildMemberRequest>, acc: Seq<PendingGuildMemberRequest>, earliest: u64) -> Seq<PendingGuildMemberRequest>
    decreases a.len(),
{
    if a.len() == 0 {
        acc
    } else {
        let sent = a.last();
        let g = sent.request.guild_id@;
        let superseded = sent.request.searching() && (has_search_for(p, g) || has_search_for(acc, g));
        recovered_from(
            a.drop_last(),
            p,
            if superseded { acc } else { seq![PendingGuildMemberRequest { request: sent.request, send_at: earliest }] + acc },
            earliest,
        )
    }
}

/// Some request of `r` is for guild `g`.
pub open spec fn has_guild(r: Seq<PendingGuildMemberRequest>, g: u64) -> bool {
    exists|i: int| 0 <= i < r.len() && (#[trigger] r[i]).request.guild_id@ == g
}

/// The queue with every request of a guild that `r` has a request for held
/// until at least `earliest`.
pub open spec fn delayed_for(q: Seq<PendingGuildMemberRequest>, r: Seq<PendingGuildMemberRequest>, earliest: u64) -> Seq<PendingGuildMemberRequest> {
    Seq::new(
        q.len(),
        |i: int| if has_guild(r, q[i].request.guild_id@) {
            PendingGuildMemberRequest { request: q[i].request, send_at: max_u64(q[i].send_at, earliest) }
        } else {
            q[i]
        },
    )
}

/// The queue with every request of the guilds `gs` held until at least
/// `earliest`.
pub open spec fn delayed_guilds(q: Seq<PendingGuildMemberRequest>, gs: Seq<Id<GuildMarker>>, earliest: u64) -> Seq<PendingGuildMemberRequest> {
    Seq::new(
        q.len(),
        |i: int| if exists|k: int| 0 <= k < gs.len() && (#[trigger] gs[k])@ == q[i].request.guild_id@ {
            PendingGuildMemberRequest { request: q[i].request, send_at: max_u64(q[i].send_at, earliest) }
        } else {
            q[i]
        },
    )
}

/// The queue after an in-flight request is given up at `now`: an
/// unanswered one goes back to the front, due when it was to be retried or
/// now.
pub open spec fn requeued_in_flight(p: Seq<PendingGuildMemberRequest>, f: Option<ScheduledGuildMemberRequest>, now: u64) -> Seq<PendingGuildMemberRequest> {
    match f {
        Some(f) => if f.accepted {
            p
        } else {
            seq![PendingGuildMemberRequest {
                request: f.request,
                send_at: match f.retry_at {
                    Some(r) => r,
                    None => now,
                },
            }] + p
        },
        None => p,
    }
}

/// The queue a reconnect at `now` leaves: the in-flight request and the
/// unexpired sent ones put back, their guilds held until now.
pub open spec fn reconnect_queue(s: GuildMemberRequestScheduler, now: u64) -> Seq<PendingGuildMemberRequest> {
    let p1 = requeued_in_flight(s.pending@, s.in_flight, now);
    let r = recovered_from(drop_expired(s.awaiting_response@, now), p1, Seq::empty(), now);
    delayed_for(r + p1, r, now)
}

/// The queue with each request held until its guild's deadline, and not
/// before `now`.
pub open spec fn held_until_deadlines(q: Seq<PendingGuildMemberRequest>, l: Seq<(Id<GuildMarker>, u64)>, now: u64) -> Seq<PendingGuildMemberRequest> {
    Seq::new(
        q.len(),
        |i: int| PendingGuildMemberRequest {
            request: q[i].request,
            send_at: max_u64(q[i].send_at, request_at(l, q[i].request.guild_id@, now)),
        },
    )
}

/// The last sent request carrying `nonce`.
pub open spec fn last_sent_with_nonce(a: Seq<SentGuildMemberRequest>, nonce: Seq<char>) -> Option<int>
    decreases a.len(),
{
    if a.len() == 0 {
        None
    } else if a.last().request.nonce@ == nonce {
        Some(a.len() - 1)
    } else {
        last_sent_with_nonce(a.drop_last(), nonce)
    }
}

/// The last queued request carrying `nonce`.
pub open spec fn last_pending_with_nonce(p: Seq<PendingGuildMemberRequest>, nonce: Seq<char>) -> Option<int>
    decreases p.len(),
{
    if p.len() == 0 {
        None
    } else if p.last().request.nonce@ == nonce {
        Some(p.len() - 1)
    } else {
        last_pending_with_nonce(p.drop_last(), nonce)
    }
}

/// The in-flight request answers to the guild and, where given, the nonce.
pub open spec fn in_flight_matches(f: Option<ScheduledGuildMemberRequest>, g: u64, nonce: Option<Seq<char>>) -> bool {
    match f {
        Some(f) => f.request.guild_id@ == g && match nonce {
            Some(n) => f.request.nonce@ == n,
            None => true,
        },
        None => false,
    }
}

/// A queued request that users for guild `g` with these presences may join.
pub open spec fn compatible(p: PendingGuildMemberRequest, g: u64, presences: bool) -> bool {
    p.request.guild_id@ == g && match p.request.kind {
        GuildMemberRequestKind::ByIds { presences: pr, .. } => pr == presences,
        GuildMemberRequestKind::Search { .. } => false,
    }
}

pub open spec fn users_of(p: PendingGuildMemberRequest) -> Seq<Id<UserMarker>> {
    match p.request.kind {
        GuildMemberRequestKind::ByIds { user_ids, .. } => user_ids@,
        GuildMemberRequestKind::Search { .. } => Seq::empty(),
    }
}

fn contains_user(ids: &Vec<Id<UserMarker>>, u: Id<UserMarker>) -> (b: bool)
    ensures
        b == has_user(ids@, u@),
{
    let n = ids.len();
    let mut i: usize = 0;
    while i < n
        invariant
            n == ids@.len(),
            i <= n,
            forall|k: int| 0 <= k < i ==> (#[trigger] ids@[k])@ != u@,
        decreases n - i,
    {
        if ids[i].get() == u.get() {
            return true;
        }
        i = i + 1;
    }
    false
}

/// How many more users a queued request has room for.
pub open spec fn room_of(p: PendingGuildMemberRequest) -> int {
    if users_of(p).len() >= MAX_USER_IDS_PER_REQUEST { 0 } else { MAX_USER_IDS_PER_REQUEST - users_of(p).len() }
}

/// The users of `remaining` a queued request does not already name.
pub open spec fn unnamed_users(p: PendingGuildMemberRequest, remaining: Seq<Id<UserMarker>>) -> Seq<Id<UserMarker>> {
    remaining.filter(unnamed_by(users_of(p)))
}

/// How many of those the request takes: as many as it has room for.
pub open spec fn fill_count(p: PendingGuildMemberRequest, remaining: Seq<Id<UserMarker>>) -> int {
    let r = unnamed_users(p, remaining);
    if r.len() <= room_of(p) { r.len() as int } else { room_of(p) }
}

/// Whether a user is not among `ids`.
pub open spec fn unnamed_by(ids: Seq<Id<UserMarker>>) -> spec_fn(Id<UserMarker>) -> bool {
    |u: Id<UserMarker>| !has_user(ids, u@)
}

/// The users of `s`, each at its first occurrence, in order.
pub open spec fn first_occurrences(s: Seq<Id<UserMarker>>) -> Seq<Id<UserMarker>>
    decreases s.len(),
{
    if s.len() == 0 {
        s
    } else {
        let d = first_occurrences(s.drop_last());
        if has_user(d, s.last()@) { d } else { d.push(s.last()) }
    }
}

/// `r` without the users that compatible requests from `j` on name.
pub open spec fn unnamed_from(p: Seq<PendingGuildMemberRequest>, j: int, r: Seq<Id<UserMarker>>, g: u64, presences: bool) -> Seq<Id<UserMarker>>
    decreases p.len() - j,
{
    if j < 0 || j >= p.len() {
        r
    } else if compatible(p[j], g, presences) {
        unnamed_from(p, j + 1, r.filter(unnamed_by(users_of(p[j]))), g, presences)
    } else {
        unnamed_from(p, j + 1, r, g, presences)
    }
}

/// The room the compatible requests from `j` on have left, together.
pub open spec fn room_from(p: Seq<PendingGuildMemberRequest>, j: int, g: u64, presences: bool) -> int
    decreases p.len() - j,
{
    if j < 0 || j >= p.len() {
        0
    } else {
        (if compatible(p[j], g, presences) { room_of(p[j]) } else { 0 }) + room_from(p, j + 1, g, presences)
    }
}

/// A count held in a `usize`, saturating.
pub open spec fn saturated(n: int) -> int {
    if n > usize::MAX { usize::MAX as int } else { n }
}

/// How many new requests `n` users need beyond the room already queued:
/// a hundred to a request.
pub open spec fn new_request_count(n: int, room: int) -> nat {
    let excess = if n >= room { n - room } else { 0 };
    (excess / 100 + if excess % 100 != 0 { 1int } else { 0int }) as nat
}

/// How many searches must go for `additional` new requests to fit the bound.
pub open spec fn by_ids_overflow(len: int, additional: int) -> nat {
    sat_sub(
        if len + additional > usize::MAX { usize::MAX as u64 } else { (len + additional) as u64 },
        MAX_PENDING_GUILD_MEMBER_REQUESTS as u64,
    ) as nat
}

/// The greedy filling of compatible requests from `i` on with the users
/// `r`: what each request takes, in order, and the users left over.
pub open spec fn fill_plan(p: Seq<PendingGuildMemberRequest>, i: int, r: Seq<Id<UserMarker>>, g: u64, presences: bool) -> (Seq<Seq<Id<UserMarker>>>, Seq<Id<UserMarker>>)
    decreases p.len() - i,
{
    if i < 0 || i >= p.len() {
        (Seq::empty(), r)
    } else if compatible(p[i], g, presences) {
        let fresh = unnamed_users(p[i], r);
        let t = fill_count(p[i], r);
        let rest = fill_plan(p, i + 1, fresh.skip(t), g, presences);
        (seq![fresh.take(t)] + rest.0, rest.1)
    } else {
        let rest = fill_plan(p, i + 1, r, g, presences);
        (seq![Seq::<Id<UserMarker>>::empty()] + rest.0, rest.1)
    }
}

proof fn lemma_fill_plan_len(p: Seq<PendingGuildMemberRequest>, i: int, r: Seq<Id<UserMarker>>, g: u64, presences: bool)
    requires
        0 <= i <= p.len(),
    ensures
        fill_plan(p, i, r, g, presences).0.len() == p.len() - i,
    decreases p.len() - i,
{
    if i < p.len() {
        if compatible(p[i], g, presences) {
            let fresh = unnamed_users(p[i], r);
            lemma_fill_plan_len(p, i + 1, fresh.skip(fill_count(p[i], r)), g, presences);
        } else {
            lemma_fill_plan_len(p, i + 1, r, g, presences);
        }
    }
}

/// With no users left, filling takes nothing and leaves nothing.
proof fn lemma_fill_plan_empty(p: Seq<PendingGuildMemberRequest>, i: int, g: u64, presences: bool)
    requires
        0 <= i <= p.len(),
    ensures
        fill_plan(p, i, Seq::empty(), g, presences).1 == Seq::<Id<UserMarker>>::empty(),
        fill_plan(p, i, Seq::empty(), g, presences).0.len() == p.len() - i,
        forall|k: int| 0 <= k < p.len() - i ==> #[trigger] fill_plan(p, i, Seq::empty(), g, presences).0[k] == Seq::<Id<UserMarker>>::empty(),
    decreases p.len() - i,
{
    let e = Seq::<Id<UserMarker>>::empty();
    if i < p.len() {
        lemma_fill_plan_empty(p, i + 1, g, presences);
        let rest = fill_plan(p, i + 1, e, g, presences);
        if compatible(p[i], g, presences) {
            let fresh = unnamed_users(p[i], e);
            assert(fresh =~= e) by {
                reveal(Seq::filter);
            }
            assert(fill_count(p[i], e) == 0);
            assert(fresh.skip(0) =~= e);
            assert(fresh.take(0) =~= e);
        }
        let whole = fill_plan(p, i, e, g, presences);
        assert forall|k: int| 0 <= k < p.len() - i implies #[trigger] whole.0[k] == e by {
            if k > 0 {
                assert(whole.0[k] == rest.0[k - 1]);
            }
        }
    }
}

/// Users split into requests of a hundred, the last holding the rest.
pub open spec fn chunks_of(r: Seq<Id<UserMarker>>) -> Seq<Seq<Id<UserMarker>>>
    decreases r.len(),
{
    if r.len() == 0 {
        Seq::empty()
    } else if r.len() <= MAX_USER_IDS_PER_REQUEST {
        seq![r]
    } else {
        seq![r.take(MAX_USER_IDS_PER_REQUEST as int)] + chunks_of(r.skip(MAX_USER_IDS_PER_REQUEST as int))
    }
}

/// The nonce counter after one nonce is handed out.
pub open spec fn nonce_step(n: u64) -> u64 {
    if n == u64::MAX { 1 } else { max_u64((n + 1) as u64, 1) }
}

/// The nonce counter after `k` nonces are handed out.
pub open spec fn nonce_after(n: u64, k: nat) -> u64
    decreases k,
{
    if k == 0 { n } else { nonce_step(nonce_after(n, (k - 1) as nat)) }
}

/// A queued request after filling: a compatible one keeps its place, time
/// and nonce and names `added` after its users; another is untouched.
pub open spec fn extended_by(before: PendingGuildMemberRequest, after: PendingGuildMemberRequest, added: Seq<Id<UserMarker>>, g: u64, presences: bool) -> bool {
    if compatible(before, g, presences) {
        &&& after.send_at == before.send_at
        &&& after.request.guild_id == before.request.guild_id
        &&& after.request.nonce == before.request.nonce
        &&& compatible(after, g, presences)
        &&& users_of(after) == users_of(before) + added
    } else {
        after == before
    }
}

/// A new request for the users `users` of guild `g`.
pub open spec fn new_by_ids(e: PendingGuildMemberRequest, users: Seq<Id<UserMarker>>, nonce: Seq<char>, g: Id<GuildMarker>, presences: bool, at: u64) -> bool {
    &&& e.request.guild_id == g
    &&& e.request.nonce@ == nonce
    &&& compatible(e, g@, presences)
    &&& users_of(e) == users
    &&& e.send_at == at
}

/// Keeping every element keeps the sequence.
proof fn lemma_filter_keeps_all(s: Seq<Id<UserMarker>>, pred: spec_fn(Id<UserMarker>) -> bool)
    requires
        forall|k: int| 0 <= k < s.len() ==> pred(#[trigger] s[k]),
    ensures
        s.filter(pred) == s,
    decreases s.len(),
{
    reveal(Seq::filter);
    if s.len() > 0 {
        lemma_filter_keeps_all(s.drop_last(), pred);
        assert(s.drop_last().push(s.last()) =~= s);
    }
}

/// The users not already named in `ids`, in order.
fn without_users(remaining: Vec<Id<UserMarker>>, ids: &Vec<Id<UserMarker>>) -> (r: Vec<Id<UserMarker>>)
    ensures
        r@ == remaining@.filter(unnamed_by(ids@)),
        forall|u: u64| has_user(remaining@, u) ==> has_user(r@, u) || has_user(ids@, u),
        forall|u: u64| has_user(r@, u) ==> has_user(remaining@, u),
{
    let mut r: Vec<Id<UserMarker>> = Vec::new();
    let n = remaining.len();
    let mut i: usize = 0;
    assert(remaining@.take(0) =~= Seq::<Id<UserMarker>>::empty());
    while i < n
        invariant
            n == remaining@.len(),
            i <= n,
            forall|k: int| 0 <= k < i ==> has_user(r@, (#[trigger] remaining@[k])@) || has_user(ids@, remaining@[k]@),
            forall|k: int| 0 <= k < r@.len() ==> has_user(remaining@, (#[trigger] r@[k])@),
            r@ == remaining@.take(i as int).filter(unnamed_by(ids@)),
        decreases n - i,
    {
        let u = remaining[i];
        proof {
            reveal(Seq::filter);
            assert(remaining@.take(i + 1).drop_last() =~= remaining@.take(i as int));
            assert(remaining@.take(i + 1).last() == u);
        }
        if !contains_user(ids, u) {
            let ghost before = r@;
            r.push(u);
            proof {
                assert(r@ == before.push(u));
                assert(r@[before.len() as int] == u);
                assert(has_user(remaining@, u@));
                assert forall|k: int| 0 <= k <= i implies has_user(r@, (#[trigger] remaining@[k])@) || has_user(ids@, remaining@[k]@) by {
                    if k < i {
                        if has_user(before, remaining@[k]@) {
                            let w = choose|w: int| 0 <= w < before.len() && before[w]@ == remaining@[k]@;
                            assert(r@[w] == before[w]);
                        }
                    }
                }
                assert forall|k: int| 0 <= k < r@.len() implies has_user(remaining@, (#[trigger] r@[k])@) by {
                    if k < before.len() {
                        assert(r@[k] == before[k]);
                    }
                }
            }
        }
        i = i + 1;
    }
    proof {
        assert(remaining@.take(n as int) =~= remaining@);
        assert forall|u: u64| has_user(remaining@, u) implies has_user(r@, u) || has_user(ids@, u) by {
            let k = choose|k: int| 0 <= k < remaining@.len() && remaining@[k]@ == u;
            assert(has_user(r@, remaining@[k]@) || has_user(ids@, remaining@[k]@));
        }
        assert forall|u: u64| has_user(r@, u) implies has_user(remaining@, u) by {
            let k = choose|k: int| 0 <= k < r@.len() && r@[k]@ == u;
            assert(has_user(remaining@, r@[k]@));
        }
    }
    r
}

proof fn lemma_has_user_split(a: Seq<Id<UserMarker>>, b: Seq<Id<UserMarker>>, u: u64)
    requires
        has_user(a + b, u),
    ensures
        has_user(a, u) || has_user(b, u),
{
    let k = choose|k: int| 0 <= k < (a + b).len() && (a + b)[k]@ == u;
    if k < a.len() {
        assert(a[k] == (a + b)[k]);
    } else {
        assert(b[k - a.len()] == (a + b)[k]);
    }
}

proof fn lemma_has_user_left(a: Seq<Id<UserMarker>>, b: Seq<Id<UserMarker>>, u: u64)
    requires
        has_user(a, u),
    ensures
        has_user(a + b, u),
{
    let k = choose|k: int| 0 <= k < a.len() && a[k]@ == u;
    assert((a + b)[k] == a[k]);
}

proof fn lemma_has_user_right(a: Seq<Id<UserMarker>>, b: Seq<Id<UserMarker>>, u: u64)
    requires
        has_user(b, u),
    ensures
        has_user(a + b, u),
{
    let k = choose|k: int| 0 <= k < b.len() && b[k]@ == u;
    assert((a + b)[a.len() + k] == b[k]);
}

/// The users not already named by the queued request, in order.
fn drop_named_users(remaining: Vec<Id<UserMarker>>, p: &PendingGuildMemberRequest) -> (r: Vec<Id<UserMarker>>)
    ensures
        r@ == remaining@.filter(unnamed_by(users_of(*p))),
        forall|u: u64| has_user(remaining@, u) ==> has_user(r@, u) || has_user(users_of(*p), u),
        forall|u: u64| has_user(r@, u) ==> has_user(remaining@, u),
{
    match &p.request.kind {
        GuildMemberRequestKind::ByIds { user_ids, .. } => without_users(remaining, user_ids),
        GuildMemberRequestKind::Search { .. } => {
            proof {
                lemma_filter_keeps_all(remaining@, unnamed_by(users_of(*p)));
            }
            remaining
        },
    }
}

fn user_count(p: &PendingGuildMemberRequest) -> (n: usize)
    ensures
        n == users_of(*p).len(),
{
    match &p.request.kind {
        GuildMemberRequestKind::ByIds { user_ids, .. } => user_ids.len(),
        GuildMemberRequestKind::Search { .. } => 0,
    }
}

/// What a RATE_LIMITED reply does to the scheduler: see `apply_rate_limit`.
pub open spec fn rate_limit_applied(
    before: GuildMemberRequestScheduler,
    after: GuildMemberRequestScheduler,
    guild_id: Id<GuildMarker>,
    nonce: Option<Seq<char>>,
    retry_after: u64,
    now: u64,
) -> bool {
    let nv = nonce;
    let retry_at = (now + retry_after) as u64;
    let l1 = live_limits(before.guild_rate_limit_until@, now);
    let a1 = drop_expired(before.awaiting_response@, now);
    let p = before.pending@;
    let newer = has_search_for(p, guild_id@);
    let until = limit_after(l1, guild_id@, retry_at);
    &&& after.guild_rate_limit_until@ == with_limit(l1, guild_id, until)
    &&& if in_flight_matches(before.in_flight, guild_id@, nv) {
        let f = before.in_flight.unwrap();
        &&& after.in_flight == Some(if f.request.searching() && newer {
            ScheduledGuildMemberRequest { request: f.request, accepted: true, retry_at: None }
        } else {
            ScheduledGuildMemberRequest { request: f.request, accepted: false, retry_at: Some(retry_at) }
        })
        &&& after.awaiting_response@ == a1
        &&& after.pending@ == delayed(p, guild_id@, until)
    } else {
        &&& after.in_flight == before.in_flight
        &&& match last_awaited_match(a1, guild_id@, nv) {
            Some(pos) => {
                &&& after.awaiting_response@ == a1.remove(pos)
                &&& after.pending@ == delayed(
                    if !a1[pos].request.searching() || !newer {
                        seq![PendingGuildMemberRequest { request: a1[pos].request, send_at: retry_at }] + p
                    } else {
                        p
                    },
                    guild_id@,
                    until,
                )
            },
            None => after.awaiting_response@ == a1 && after.pending@ == delayed(p, guild_id@, until),
        }
    }
    &&& after.next_nonce == before.next_nonce
}

/// What a GUILD_MEMBERS_CHUNK with `nonce` does to the scheduler: see
/// `acknowledge`.
pub open spec fn acknowledged(before: GuildMemberRequestScheduler, after: GuildMemberRequestScheduler, nonce: Seq<char>) -> bool {
    &&& match before.in_flight {
        Some(f) if f.request.nonce@ == nonce => {
            &&& after.in_flight == Some(ScheduledGuildMemberRequest { request: f.request, accepted: true, retry_at: f.retry_at })
            &&& after.awaiting_response@ == before.awaiting_response@
            &&& after.pending@ == before.pending@
        },
        _ => {
            &&& after.in_flight == before.in_flight
            &&& match last_sent_with_nonce(before.awaiting_response@, nonce) {
                Some(i) => after.awaiting_response@ == before.awaiting_response@.remove(i) && after.pending@ == before.pending@,
                None => after.awaiting_response@ == before.awaiting_response@ && match last_pending_with_nonce(before.pending@, nonce) {
                    Some(j) => after.pending@ == before.pending@.remove(j),
                    None => after.pending@ == before.pending@,
                },
            }
        },
    }
    &&& after.guild_rate_limit_until@ == before.guild_rate_limit_until@
    &&& after.next_nonce == before.next_nonce
}

impl GuildMemberRequestScheduler {
    /// A fresh nonce, and the counter moved on (wrapping, and never zero).
    pub fn next_nonce(&mut self) -> (nonce: String)
        ensures
            nonce@ == nonce_text(old(self).next_nonce),
            final(self).next_nonce == if old(self).next_nonce == u64::MAX { 1 } else { max_u64((old(self).next_nonce + 1) as u64, 1) },
            final(self).pending@ == old(self).pending@,
            final(self).in_flight == old(self).in_flight,
            final(self).awaiting_response@ == old(self).awaiting_response@,
            final(self).guild_rate_limit_until@ == old(self).guild_rate_limit_until@,
    {
        let nonce = concat2("concord-", hex16_string(self.next_nonce).as_str());
        let next = if self.next_nonce == u64::MAX { 0 } else { self.next_nonce + 1 };
        self.next_nonce = if next >= 1 { next } else { 1 };
        nonce
    }

    /// Forget sent requests that have waited their answer out, and
    /// deadlines that have passed.
    pub fn prune_expired(&mut self, now: u64)
        ensures
            final(self).awaiting_response@ == drop_expired(old(self).awaiting_response@, now),
            final(self).guild_rate_limit_until@ == live_limits(old(self).guild_rate_limit_until@, now),
            final(self).pending@ == old(self).pending@,
            final(self).in_flight == old(self).in_flight,
            final(self).next_nonce == old(self).next_nonce,
    {
        let ghost a0 = self.awaiting_response@;
        let mut cut: usize = 0;
        let n = self.awaiting_response.len();
        proof {
            assert(a0.skip(0) =~= a0);
        }
        while cut < n
            invariant
                n == a0.len(),
                self.awaiting_response@ == a0,
                cut <= n,
                drop_expired(a0, now) == drop_expired(a0.skip(cut as int), now),
            ensures
                cut <= n,
                drop_expired(a0, now) == drop_expired(a0.skip(cut as int), now),
                cut < n ==> !expired(a0[cut as int].sent_at, now),
            decreases n - cut,
        {
            let sent_at = self.awaiting_response[cut].sent_at;
            if !(now >= sent_at && now - sent_at >= GUILD_MEMBER_REQUEST_RESPONSE_TTL_MS) {
                break;
            }
            proof {
                assert(a0.skip(cut as int).drop_first() =~= a0.skip(cut + 1));
            }
            cut = cut + 1;
        }
        proof {
            if cut == n {
                assert(a0.skip(cut as int).len() == 0);
            } else {
                assert(a0.skip(cut as int)[0] == a0[cut as int]);
            }
        }
        let tail = self.awaiting_response.split_off(cut);
        proof {
            assert(tail@ =~= a0.skip(cut as int));
        }
        self.awaiting_response = tail;
        let ghost l0 = self.guild_rate_limit_until@;
        let mut limits: Vec<(Id<GuildMarker>, u64)> = Vec::new();
        let m = self.guild_rate_limit_until.len();
        let mut i: usize = 0;
        proof {
            assert(l0.take(0) =~= Seq::<(Id<GuildMarker>, u64)>::empty());
        }
        while i < m
            invariant
                m == l0.len(),
                self.guild_rate_limit_until@ == l0,
                i <= m,
                limits@ == live_limits(l0.take(i as int), now),
            decreases m - i,
        {
            let entry = self.guild_rate_limit_until[i];
            proof {
                assert(l0.take(i + 1).drop_last() =~= l0.take(i as int));
            }
            if entry.1 > now {
                limits.push(entry);
            }
            i = i + 1;
        }
        proof {
            assert(l0.take(m as int) =~= l0);
        }
        self.guild_rate_limit_until = limits;
    }

    /// When a request for `guild_id` made at `requested_at` may go out: not
    /// before the guild's deadline.
    pub fn guild_request_at(&self, guild_id: Id<GuildMarker>, requested_at: u64) -> (t: u64)
        ensures
            t == request_at(self.guild_rate_limit_until@, guild_id@, requested_at),
    {
        let l = &self.guild_rate_limit_until;
        let n = l.len();
        let mut i: usize = 0;
        proof {
            assert(l@.skip(0) =~= l@);
        }
        while i < n
            invariant
                n == l@.len(),
                l@ == self.guild_rate_limit_until@,
                i <= n,
                limit_of(l@, guild_id@) == limit_of(l@.skip(i as int), guild_id@),
            decreases n - i,
        {
            proof {
                assert(l@.skip(i as int).drop_first() =~= l@.skip(i + 1));
            }
            if l[i].0.get() == guild_id.get() {
                let u = l[i].1;
                proof {
                    assert(l@.skip(i as int)[0] == l@[i as int]);
                    assert(l@.skip(i as int).len() > 0);
                    assert(l@[i as int].0@ == guild_id@);
                    assert(limit_of(l@.skip(i as int), guild_id@) == Some(u));
                    assert(limit_of(self.guild_rate_limit_until@, guild_id@) == Some(u));
                }
                let t = if u >= requested_at { u } else { requested_at };
                assert(t == max_u64(u, requested_at));
                return t;
            }
            i = i + 1;
        }
        requested_at
    }

    /// Hold every pending request for the guild until at least `earliest`.
    pub fn delay_pending_guild_until(&mut self, guild_id: Id<GuildMarker>, earliest: u64)
        ensures
            final(self).pending@ == delayed(old(self).pending@, guild_id@, earliest),
            final(self).in_flight == old(self).in_flight,
            final(self).awaiting_response@ == old(self).awaiting_response@,
            final(self).guild_rate_limit_until@ == old(self).guild_rate_limit_until@,
            final(self).next_nonce == old(self).next_nonce,
    {
        let ghost p0 = self.pending@;
        let n = self.pending.len();
        let mut i: usize = 0;
        while i < n
            invariant
                n == p0.len(),
                self.pending@.len() == n,
                i <= n,
                forall|k: int| 0 <= k < i ==> self.pending@[k] == delayed(p0, guild_id@, earliest)[k],
                forall|k: int| i <= k < n ==> self.pending@[k] == p0[k],
                self.in_flight == old(self).in_flight,
                self.awaiting_response@ == old(self).awaiting_response@,
                self.guild_rate_limit_until@ == old(self).guild_rate_limit_until@,
                self.next_nonce == old(self).next_nonce,
            decreases n - i,
        {
            if self.pending[i].request.guild_id.get() == guild_id.get() {
                let current = self.pending[i].send_at;
                self.pending[i].send_at = if current >= earliest { current } else { earliest };
            }
            i = i + 1;
        }
        proof {
            assert(self.pending@ =~= delayed(p0, guild_id@, earliest));
        }
    }

    /// Move the guild's deadline to the later of the one it had and
    /// `retry_at`, and hold its pending requests until then.
    pub fn apply_guild_rate_limit_until(&mut self, guild_id: Id<GuildMarker>, retry_at: u64)
        ensures
            final(self).guild_rate_limit_until@ == with_limit(
                old(self).guild_rate_limit_until@,
                guild_id,
                limit_after(old(self).guild_rate_limit_until@, guild_id@, retry_at),
            ),
            final(self).pending@ == delayed(
                old(self).pending@,
                guild_id@,
                limit_after(old(self).guild_rate_limit_until@, guild_id@, retry_at),
            ),
            final(self).in_flight == old(self).in_flight,
            final(self).awaiting_response@ == old(self).awaiting_response@,
            final(self).next_nonce == old(self).next_nonce,
    {
        let ghost l0 = self.guild_rate_limit_until@;
        let n = self.guild_rate_limit_until.len();
        let mut i: usize = 0;
        proof {
            assert(l0.skip(0) =~= l0);
            assert(l0.take(0) + with_limit(l0.skip(0), guild_id, limit_after(l0, guild_id@, retry_at)) =~= with_limit(l0, guild_id, limit_after(l0, guild_id@, retry_at)));
        }
        let ghost target = limit_after(l0, guild_id@, retry_at);
        while i < n
            invariant
                n == l0.len(),
                self.guild_rate_limit_until@ == l0,
                i <= n,
                limit_of(l0, guild_id@) == limit_of(l0.skip(i as int), guild_id@),
                with_limit(l0, guild_id, target) == l0.take(i as int) + with_limit(l0.skip(i as int), guild_id, target),
                target == limit_after(l0, guild_id@, retry_at),
                l0 == old(self).guild_rate_limit_until@,
                self.pending@ == old(self).pending@,
                self.in_flight == old(self).in_flight,
                self.awaiting_response@ == old(self).awaiting_response@,
                self.next_nonce == old(self).next_nonce,
            decreases n - i,
        {
            proof {
                assert(l0.skip(i as int)[0] == l0[i as int]);
                assert(l0.skip(i as int).drop_first() =~= l0.skip(i + 1));
            }
            if self.guild_rate_limit_until[i].0.get() == guild_id.get() {
                let current = self.guild_rate_limit_until[i].1;
                let earliest = if current >= retry_at { current } else { retry_at };
                proof {
                    assert(limit_of(l0.skip(i as int), guild_id@) == Some(current));
                    assert(earliest == target);
                }
                let key = self.guild_rate_limit_until[i].0;
                self.guild_rate_limit_until.set(i, (key, earliest));
                proof {
                    assert(self.guild_rate_limit_until@ =~= l0.take(i as int) + l0.skip(i as int).update(0, (l0[i as int].0, earliest)));
                }
                self.delay_pending_guild_until(guild_id, earliest);
                return;
            }
            proof {
                assert(l0.take(i as int) + (seq![l0.skip(i as int)[0]] + with_limit(l0.skip(i + 1), guild_id, target)) =~= l0.take(i + 1) + with_limit(l0.skip(i + 1), guild_id, target));
            }
            i = i + 1;
        }
        proof {
            assert(l0.skip(n as int) =~= Seq::<(Id<GuildMarker>, u64)>::empty());
            assert(l0.take(n as int) =~= l0);
        }
        self.guild_rate_limit_until.push((guild_id, retry_at));
        self.delay_pending_guild_until(guild_id, retry_at);
    }

    /// Queue a request behind the guild's deadline, unless the queue is at
    /// its bound.
    pub fn enqueue_request(&mut self, request: GuildMemberRequest, now: u64) -> (queued: bool)
        ensures
            queued == (old(self).pending@.len() < MAX_PENDING_GUILD_MEMBER_REQUESTS),
            queued ==> final(self).pending@ == old(self).pending@.push(PendingGuildMemberRequest {
                request,
                send_at: request_at(old(self).guild_rate_limit_until@, request.guild_id@, now),
            }),
            !queued ==> final(self).pending@ == old(self).pending@,
            final(self).in_flight == old(self).in_flight,
            final(self).awaiting_response@ == old(self).awaiting_response@,
            final(self).guild_rate_limit_until@ == old(self).guild_rate_limit_until@,
            final(self).next_nonce == old(self).next_nonce,
    {
        if self.pending.len() >= MAX_PENDING_GUILD_MEMBER_REQUESTS {
            return false;
        }
        let send_at = self.guild_request_at(request.guild_id, now);
        self.pending.push(PendingGuildMemberRequest { request, send_at });
        true
    }

    /// Queue a request for given users behind the guild's deadline. These
    /// resolve users already on screen, so they are never dropped: the
    /// queue's bound is a soft one for them.
    pub fn enqueue_by_ids_request(&mut self, request: GuildMemberRequest, now: u64)
        ensures
            final(self).pending@ == old(self).pending@.push(PendingGuildMemberRequest {
                request,
                send_at: request_at(old(self).guild_rate_limit_until@, request.guild_id@, now),
            }),
            final(self).in_flight == old(self).in_flight,
            final(self).awaiting_response@ == old(self).awaiting_response@,
            final(self).guild_rate_limit_until@ == old(self).guild_rate_limit_until@,
            final(self).next_nonce == old(self).next_nonce,
    {
        let send_at = self.guild_request_at(request.guild_id, now);
        self.pending.push(PendingGuildMemberRequest { request, send_at });
    }

    fn find_first_search(&self) -> (r: Option<usize>)
        ensures
            match r {
                Some(i) => first_search_of(self.pending@) == Some(i as int) && i < self.pending@.len(),
                None => first_search_of(self.pending@) is None,
            },
    {
        let n = self.pending.len();
        let mut i: usize = 0;
        proof {
            assert(self.pending@.skip(0) =~= self.pending@);
        }
        while i < n
            invariant
                n == self.pending@.len(),
                i <= n,
                first_search_of(self.pending@) == match first_search_of(self.pending@.skip(i as int)) {
                    Some(j) => Some(j + i),
                    None => None,
                },
            decreases n - i,
        {
            proof {
                assert(self.pending@.skip(i as int)[0] == self.pending@[i as int]);
                assert(self.pending@.skip(i as int).drop_first() =~= self.pending@.skip(i + 1));
            }
            if self.pending[i].request.is_search() {
                return Some(i);
            }
            i = i + 1;
        }
        None
    }

    fn find_last_search(&self, guild_id: Id<GuildMarker>) -> (r: Option<usize>)
        ensures
            match r {
                Some(i) => last_search_of(self.pending@, guild_id@) == Some(i as int) && i < self.pending@.len(),
                None => last_search_of(self.pending@, guild_id@) is None,
            },
    {
        let n = self.pending.len();
        let mut i: usize = n;
        proof {
            assert(self.pending@.take(n as int) =~= self.pending@);
        }
        while i > 0
            invariant
                n == self.pending@.len(),
                i <= n,
                last_search_of(self.pending@, guild_id@) == last_search_of(self.pending@.take(i as int), guild_id@),
            decreases i,
        {
            proof {
                assert(self.pending@.take(i as int).last() == self.pending@[i - 1]);
                assert(self.pending@.take(i as int).drop_last() =~= self.pending@.take(i - 1));
            }
            if self.pending[i - 1].request.guild_id.get() == guild_id.get() && self.pending[i - 1].request.is_search() {
                return Some(i - 1);
            }
            i = i - 1;
        }
        None
    }

    fn drop_nonce(&mut self, nonce: &str)
        ensures
            final(self).awaiting_response@ == without_nonce(old(self).awaiting_response@, nonce@),
            final(self).pending@ == old(self).pending@,
            final(self).in_flight == old(self).in_flight,
            final(self).guild_rate_limit_until@ == old(self).guild_rate_limit_until@,
            final(self).next_nonce == old(self).next_nonce,
    {
        let mut rest = self.awaiting_response.split_off(0);
        let ghost a0 = rest@;
        proof {
            assert(a0 =~= old(self).awaiting_response@);
            assert(self.awaiting_response@ =~= Seq::<SentGuildMemberRequest>::empty());
        }
        while rest.len() > 0
            invariant
                without_nonce(a0, nonce@) == self.awaiting_response@ + without_nonce(rest@, nonce@),
                self.pending@ == old(self).pending@,
                self.in_flight == old(self).in_flight,
                self.guild_rate_limit_until@ == old(self).guild_rate_limit_until@,
                self.next_nonce == old(self).next_nonce,
            decreases rest@.len(),
        {
            let ghost r0 = rest@;
            let sent = rest.remove(0);
            proof {
                assert(r0.drop_first() =~= rest@);
            }
            if !same_text(sent.request.nonce.as_str(), nonce) {
                let ghost before = self.awaiting_response@;
                self.awaiting_response.push(sent);
                proof {
                    assert(before + (seq![r0[0]] + without_nonce(rest@, nonce@)) =~= self.awaiting_response@ + without_nonce(rest@, nonce@));
                }
            }
        }
        proof {
            assert(self.awaiting_response@ + Seq::<SentGuildMemberRequest>::empty() =~= self.awaiting_response@);
        }
    }

    /// What queueing a member search does to the scheduler: see
    /// `enqueue_search`, whose contract this restates without its answer.
    pub open spec fn search_applied(
        before: GuildMemberRequestScheduler,
        after: GuildMemberRequestScheduler,
        guild_id: Id<GuildMarker>,
        query: String,
        limit: u16,
        presences: bool,
        nonce: String,
        now: u64,
    ) -> bool {
        let r = GuildMemberRequest { guild_id, nonce, kind: GuildMemberRequestKind::Search { query, limit, presences } };
        let p = before.pending@;
        let at = request_at(live_limits(before.guild_rate_limit_until@, now), guild_id@, now);
        &&& after.pending@ == match last_search_of(p, guild_id@) {
            Some(i) => p.update(i, PendingGuildMemberRequest { request: r, send_at: p[i].send_at }),
            None => if p.len() < MAX_PENDING_GUILD_MEMBER_REQUESTS {
                p.push(PendingGuildMemberRequest { request: r, send_at: at })
            } else {
                match first_search_of(p) {
                    Some(j) => if p.remove(j).len() < MAX_PENDING_GUILD_MEMBER_REQUESTS {
                        p.remove(j).push(PendingGuildMemberRequest { request: r, send_at: at })
                    } else {
                        p.remove(j)
                    },
                    None => p,
                }
            },
        }
        &&& after.awaiting_response@ == without_nonce(drop_expired(before.awaiting_response@, now), nonce@)
        &&& after.guild_rate_limit_until@ == live_limits(before.guild_rate_limit_until@, now)
        &&& after.in_flight == before.in_flight
        &&& after.next_nonce == before.next_nonce
    }

    /// Queue a member search. A newer search for the same guild replaces the
    /// queued one (keeping its place); a full queue makes room by dropping
    /// its oldest search, and refuses when it holds none.
    pub fn enqueue_search(
        &mut self,
        guild_id: Id<GuildMarker>,
        query: String,
        limit: u16,
        presences: bool,
        nonce: String,
        now: u64,
    ) -> (queued: bool)
        ensures
            ({
                let r = GuildMemberRequest { guild_id, nonce, kind: GuildMemberRequestKind::Search { query, limit, presences } };
                let p = old(self).pending@;
                let at = request_at(live_limits(old(self).guild_rate_limit_until@, now), guild_id@, now);
                match last_search_of(p, guild_id@) {
                    Some(i) => queued && final(self).pending@ == p.update(i, PendingGuildMemberRequest { request: r, send_at: p[i].send_at }),
                    None => if p.len() < MAX_PENDING_GUILD_MEMBER_REQUESTS {
                        queued && final(self).pending@ == p.push(PendingGuildMemberRequest { request: r, send_at: at })
                    } else {
                        match first_search_of(p) {
                            Some(j) => if p.remove(j).len() < MAX_PENDING_GUILD_MEMBER_REQUESTS {
                                queued && final(self).pending@ == p.remove(j).push(PendingGuildMemberRequest { request: r, send_at: at })
                            } else {
                                !queued && final(self).pending@ == p.remove(j)
                            },
                            None => !queued && final(self).pending@ == p,
                        }
                    },
                }
            }),
            final(self).awaiting_response@ == without_nonce(drop_expired(old(self).awaiting_response@, now), nonce@),
            final(self).guild_rate_limit_until@ == live_limits(old(self).guild_rate_limit_until@, now),
            final(self).in_flight == old(self).in_flight,
            final(self).next_nonce == old(self).next_nonce,
    {
        self.prune_expired(now);
        self.drop_nonce(nonce.as_str());
        let ghost p = self.pending@;
        let request = GuildMemberRequest { guild_id, nonce, kind: GuildMemberRequestKind::Search { query, limit, presences } };
        match self.find_last_search(guild_id) {
            Some(i) => {
                let send_at = self.pending[i].send_at;
                self.pending.set(i, PendingGuildMemberRequest { request, send_at });
                return true;
            },
            None => {},
        }
        if self.pending.len() >= MAX_PENDING_GUILD_MEMBER_REQUESTS {
            match self.find_first_search() {
                Some(j) => {
                    self.pending.remove(j);
                },
                None => return false,
            }
        }
        self.enqueue_request(request, now)
    }

    /// Make room for `additional` new requests by dropping the oldest
    /// searches, as many as the bound is exceeded by (or all there are).
    pub fn make_room_for_by_ids(&mut self, additional: usize)
        ensures
            final(self).pending@ == drop_searches(
                old(self).pending@,
                sat_sub(
                    if old(self).pending@.len() + additional > usize::MAX { usize::MAX as u64 } else { (old(self).pending@.len() + additional) as u64 },
                    MAX_PENDING_GUILD_MEMBER_REQUESTS as u64,
                ) as nat,
            ),
            final(self).in_flight == old(self).in_flight,
            final(self).awaiting_response@ == old(self).awaiting_response@,
            final(self).guild_rate_limit_until@ == old(self).guild_rate_limit_until@,
            final(self).next_nonce == old(self).next_nonce,
    {
        let total = self.pending.len().saturating_add(additional);
        let overflow = if total >= MAX_PENDING_GUILD_MEMBER_REQUESTS { total - MAX_PENDING_GUILD_MEMBER_REQUESTS } else { 0 };
        proof {
            assert(usize::MAX <= u64::MAX);
        }
        if overflow == 0 {
            proof {
                let p = self.pending@;
                assert(drop_searches(p, 0) == p);
            }
            return;
        }
        let mut rest = self.pending.split_off(0);
        let ghost p0 = rest@;
        let ghost k0 = overflow as nat;
        let mut dropped: usize = 0;
        proof {
            assert(p0 =~= old(self).pending@);
            assert(self.pending@ + drop_searches(rest@, k0) =~= drop_searches(p0, k0));
        }
        while rest.len() > 0
            invariant
                dropped <= overflow,
                drop_searches(p0, k0) == self.pending@ + drop_searches(rest@, (k0 - dropped) as nat),
                k0 == overflow as nat,
                self.in_flight == old(self).in_flight,
                self.awaiting_response@ == old(self).awaiting_response@,
                self.guild_rate_limit_until@ == old(self).guild_rate_limit_until@,
                self.next_nonce == old(self).next_nonce,
            decreases rest@.len(),
        {
            let ghost r0 = rest@;
            let ghost before = self.pending@;
            let item = rest.remove(0);
            proof {
                assert(r0.drop_first() =~= rest@);
            }
            if dropped < overflow && item.request.is_search() {
                dropped = dropped + 1;
            } else {
                self.pending.push(item);
                proof {
                    if dropped == overflow {
                        assert(drop_searches(r0, 0) == r0);
                        assert(drop_searches(rest@, 0) == rest@);
                        assert(before + r0 =~= self.pending@ + rest@);
                    } else {
                        assert(before + (seq![r0[0]] + drop_searches(rest@, (k0 - dropped) as nat)) =~= self.pending@ + drop_searches(rest@, (k0 - dropped) as nat));
                    }
                }
            }
        }
        proof {
            assert(self.pending@ + Seq::<PendingGuildMemberRequest>::empty() =~= self.pending@);
        }
    }

    /// The soonest any queued request may go out, from `now`.
    pub fn next_delay(&self, now: u64) -> (d: Option<u64>)
        ensures
            d is None <==> self.pending@.len() == 0,
            d matches Some(v) ==> (exists|i: int| 0 <= i < self.pending@.len() && v == sat_sub((#[trigger] self.pending@[i]).send_at, now))
                && forall|i: int| 0 <= i < self.pending@.len() ==> v <= sat_sub((#[trigger] self.pending@[i]).send_at, now),
    {
        let n = self.pending.len();
        if n == 0 {
            return None;
        }
        let first = self.pending[0].send_at;
        let mut best: u64 = if first >= now { first - now } else { 0 };
        let mut i: usize = 1;
        while i < n
            invariant
                n == self.pending@.len(),
                1 <= i <= n,
                exists|k: int| 0 <= k < i && best == sat_sub((#[trigger] self.pending@[k]).send_at, now),
                forall|k: int| 0 <= k < i ==> best <= sat_sub((#[trigger] self.pending@[k]).send_at, now),
            decreases n - i,
        {
            let at = self.pending[i].send_at;
            let wait = if at >= now { at - now } else { 0 };
            if wait < best {
                best = wait;
            }
            i = i + 1;
        }
        Some(best)
    }

    /// Start the due request with the earliest send time, if none is in
    /// flight: it is taken off the queue, and its frame returned.
    pub fn start_due(&mut self, now: u64) -> (payload: Option<String>)
        ensures
            old(self).in_flight is Some ==> payload is None && final(self).pending@ == old(self).pending@ && final(self).in_flight == old(self).in_flight,
            old(self).in_flight is None ==> match payload {
                None => (forall|k: int| 0 <= k < old(self).pending@.len() ==> (#[trigger] old(self).pending@[k]).send_at > now)
                    && final(self).pending@ == old(self).pending@ && final(self).in_flight is None,
                Some(s) => exists|i: int| #[trigger] is_first_due(old(self).pending@, now, i)
                    && final(self).pending@ == old(self).pending@.remove(i)
                    && final(self).in_flight == Some(ScheduledGuildMemberRequest { request: old(self).pending@[i].request, accepted: false, retry_at: None })
                    && s@ == serialize(old(self).pending@[i].request.payload_json()),
            },
            final(self).awaiting_response@ == old(self).awaiting_response@,
            final(self).guild_rate_limit_until@ == old(self).guild_rate_limit_until@,
            final(self).next_nonce == old(self).next_nonce,
    {
        if self.in_flight.is_some() {
            return None;
        }
        let n = self.pending.len();
        let mut found: Option<usize> = None;
        let mut i: usize = 0;
        while i < n
            invariant
                n == self.pending@.len(),
                i <= n,
                match found {
                    None => forall|k: int| 0 <= k < i ==> (#[trigger] self.pending@[k]).send_at > now,
                    Some(j) => j < i && self.pending@[j as int].send_at <= now
                        && (forall|k: int| 0 <= k < i && (#[trigger] self.pending@[k]).send_at <= now ==> self.pending@[j as int].send_at <= self.pending@[k].send_at)
                        && (forall|k: int| 0 <= k < j && (#[trigger] self.pending@[k]).send_at <= now ==> self.pending@[j as int].send_at < self.pending@[k].send_at),
                },
            decreases n - i,
        {
            let at = self.pending[i].send_at;
            if at <= now {
                match found {
                    None => {
                        found = Some(i);
                    },
                    Some(j) => {
                        if at < self.pending[j].send_at {
                            found = Some(i);
                        }
                    },
                }
            }
            i = i + 1;
        }
        let index = match found {
            Some(j) => j,
            None => return None,
        };
        proof {
            assert(is_first_due(self.pending@, now, index as int));
        }
        let pending = self.pending.remove(index);
        let payload = pending.request.payload();
        self.in_flight = Some(ScheduledGuildMemberRequest { request: pending.request, accepted: false, retry_at: None });
        Some(payload)
    }

    /// The in-flight request reached the socket at `sent_at`. One told to
    /// retry goes back to the front of the queue; one already answered is
    /// done; any other now awaits its answer, the oldest awaited one
    /// forgotten when that list is full.
    pub fn complete_send(&mut self, sent_at: u64)
        requires
            old(self).in_flight is Some,
        ensures
            final(self).in_flight is None,
            ({
                let f = old(self).in_flight.unwrap();
                match f.retry_at {
                    Some(r) => final(self).pending@ == seq![PendingGuildMemberRequest { request: f.request, send_at: r }] + old(self).pending@
                        && final(self).awaiting_response@ == old(self).awaiting_response@
                        && final(self).guild_rate_limit_until@ == old(self).guild_rate_limit_until@,
                    None => if f.accepted {
                        final(self).pending@ == old(self).pending@
                            && final(self).awaiting_response@ == old(self).awaiting_response@
                            && final(self).guild_rate_limit_until@ == old(self).guild_rate_limit_until@
                    } else {
                        let a = drop_expired(old(self).awaiting_response@, sent_at);
                        let kept = if a.len() >= MAX_SENT_GUILD_MEMBER_REQUESTS { a.drop_first() } else { a };
                        final(self).pending@ == old(self).pending@
                            && final(self).awaiting_response@ == kept.push(SentGuildMemberRequest { request: f.request, sent_at })
                            && final(self).guild_rate_limit_until@ == live_limits(old(self).guild_rate_limit_until@, sent_at)
                    },
                }
            }),
            final(self).next_nonce == old(self).next_nonce,
    {
        let completed = match self.in_flight.take() {
            Some(c) => c,
            None => return,
        };
        if let Some(retry_at) = completed.retry_at {
            self.pending.insert(0, PendingGuildMemberRequest { request: completed.request, send_at: retry_at });
            proof {
                assert(self.pending@ =~= seq![PendingGuildMemberRequest { request: old(self).in_flight.unwrap().request, send_at: retry_at }] + old(self).pending@);
            }
            return;
        }
        if completed.accepted {
            return;
        }
        self.prune_expired(sent_at);
        if self.awaiting_response.len() >= MAX_SENT_GUILD_MEMBER_REQUESTS {
            let ghost a = self.awaiting_response@;
            self.awaiting_response.remove(0);
            proof {
                assert(self.awaiting_response@ =~= a.drop_first());
            }
        }
        self.awaiting_response.push(SentGuildMemberRequest { request: completed.request, sent_at });
    }

    /// Put an unanswered in-flight request back at the front of the queue,
    /// due at its retry time or now.
    pub fn cancel_in_flight(&mut self, now: u64)
        ensures
            final(self).in_flight is None,
            match old(self).in_flight {
                Some(f) => if f.accepted {
                    final(self).pending@ == old(self).pending@
                } else {
                    final(self).pending@ == seq![PendingGuildMemberRequest {
                        request: f.request,
                        send_at: match f.retry_at {
                            Some(r) => r,
                            None => now,
                        },
                    }] + old(self).pending@
                },
                None => final(self).pending@ == old(self).pending@,
            },
            final(self).awaiting_response@ == old(self).awaiting_response@,
            final(self).guild_rate_limit_until@ == old(self).guild_rate_limit_until@,
            final(self).next_nonce == old(self).next_nonce,
    {
        let in_flight = match self.in_flight.take() {
            Some(f) => f,
            None => return,
        };
        if in_flight.accepted {
            return;
        }
        let send_at = match in_flight.retry_at {
            Some(r) => r,
            None => now,
        };
        self.pending.insert(0, PendingGuildMemberRequest { request: in_flight.request, send_at });
        proof {
            assert(self.pending@ =~= seq![PendingGuildMemberRequest { request: old(self).in_flight.unwrap().request, send_at }] + old(self).pending@);
        }
    }

    fn pending_has_search_for(&self, guild_id: Id<GuildMarker>) -> (b: bool)
        ensures
            b == has_search_for(self.pending@, guild_id@),
    {
        let n = self.pending.len();
        let mut i: usize = 0;
        while i < n
            invariant
                n == self.pending@.len(),
                i <= n,
                forall|k: int| 0 <= k < i ==> !((#[trigger] self.pending@[k]).request.guild_id@ == guild_id@ && self.pending@[k].request.searching()),
            decreases n - i,
        {
            if self.pending[i].request.guild_id.get() == guild_id.get() && self.pending[i].request.is_search() {
                return true;
            }
            i = i + 1;
        }
        false
    }

    fn find_last_awaited(&self, g: Id<GuildMarker>, nonce: Option<&str>) -> (r: Option<usize>)
        ensures
            match r {
                Some(i) => i < self.awaiting_response@.len() && last_awaited_match(
                    self.awaiting_response@,
                    g@,
                    match nonce {
                        Some(n) => Some(n@),
                        None => None,
                    },
                ) == Some(i as int),
                None => last_awaited_match(
                    self.awaiting_response@,
                    g@,
                    match nonce {
                        Some(n) => Some(n@),
                        None => None,
                    },
                ) is None,
            },
    {
        let ghost nv = match nonce {
            Some(n) => Some(n@),
            None => None,
        };
        let a = &self.awaiting_response;
        let n = a.len();
        let mut i: usize = n;
        proof {
            assert(a@.take(n as int) =~= a@);
        }
        while i > 0
            invariant
                n == a@.len(),
                a@ == self.awaiting_response@,
                i <= n,
                nv == match nonce {
                    Some(n) => Some(n@),
                    None => None,
                },
                last_awaited_match(a@, g@, nv) == last_awaited_match(a@.take(i as int), g@, nv),
            decreases i,
        {
            proof {
                assert(a@.take(i as int).last() == a@[i - 1]);
                assert(a@.take(i as int).drop_last() =~= a@.take(i - 1));
            }
            let item = &a[i - 1];
            let nonce_ok = match nonce {
                Some(want) => same_text(item.request.nonce.as_str(), want),
                None => true,
            };
            if item.request.guild_id.get() == g.get() && nonce_ok {
                return Some(i - 1);
            }
            i = i - 1;
        }
        None
    }

    /// A RATE_LIMITED reply for the guild (and nonce, where Discord gave
    /// one), asking for `retry_after` ms. The request it answers is retried
    /// then, unless it is a search a newer queued search replaces; the
    /// guild's deadline moves to the retry time if that is later, and its
    /// queued requests wait for it.
    pub fn apply_rate_limit(&mut self, guild_id: Id<GuildMarker>, nonce: Option<&str>, retry_after: u64, now: u64)
        requires
            now + retry_after <= u64::MAX,
        ensures
            rate_limit_applied(*old(self), *final(self), guild_id, match nonce {
                Some(n) => Some(n@),
                None => None,
            }, retry_after, now),
    {
        self.prune_expired(now);
        let retry_at = now + retry_after;
        let has_newer_search = self.pending_has_search_for(guild_id);
        let in_flight_match = match &self.in_flight {
            Some(f) => f.request.guild_id.get() == guild_id.get() && match nonce {
                Some(n) => same_text(f.request.nonce.as_str(), n),
                None => true,
            },
            None => false,
        };
        if in_flight_match {
            let f = match self.in_flight.take() {
                Some(f) => f,
                None => return,
            };
            let searching = f.request.is_search();
            if searching && has_newer_search {
                self.in_flight = Some(ScheduledGuildMemberRequest { request: f.request, accepted: true, retry_at: None });
            } else {
                self.in_flight = Some(ScheduledGuildMemberRequest { request: f.request, accepted: false, retry_at: Some(retry_at) });
            }
            self.apply_guild_rate_limit_until(guild_id, retry_at);
            return;
        }
        match self.find_last_awaited(guild_id, nonce) {
            Some(position) => {
                let sent = self.awaiting_response.remove(position);
                if !sent.request.is_search() || !has_newer_search {
                    let ghost p = self.pending@;
                    self.pending.insert(0, PendingGuildMemberRequest { request: sent.request, send_at: retry_at });
                    proof {
                        assert(self.pending@ =~= seq![PendingGuildMemberRequest { request: sent.request, send_at: retry_at }] + p);
                    }
                }
            },
            None => {},
        }
        self.apply_guild_rate_limit_until(guild_id, retry_at);
    }

    /// A GUILD_MEMBERS_CHUNK answered the request with `nonce`: the one in
    /// flight is marked answered, or the last awaited one with it is
    /// forgotten, or else the last queued one with it is dropped.
    pub fn acknowledge(&mut self, nonce: &str)
        ensures
            acknowledged(*old(self), *final(self), nonce@),
    {
        let in_flight_match = match &self.in_flight {
            Some(f) => same_text(f.request.nonce.as_str(), nonce),
            None => false,
        };
        if in_flight_match {
            match self.in_flight.take() {
                Some(f) => {
                    self.in_flight = Some(ScheduledGuildMemberRequest { request: f.request, accepted: true, retry_at: f.retry_at });
                },
                None => {},
            }
            return;
        }
        let a = &self.awaiting_response;
        let n = a.len();
        let mut i: usize = n;
        proof {
            assert(a@.take(n as int) =~= a@);
        }
        while i > 0
            invariant
                n == a@.len(),
                a@ == self.awaiting_response@,
                a@ == old(self).awaiting_response@,
                self.pending@ == old(self).pending@,
                self.in_flight == old(self).in_flight,
                !(old(self).in_flight matches Some(f) && f.request.nonce@ == nonce@),
                self.guild_rate_limit_until@ == old(self).guild_rate_limit_until@,
                self.next_nonce == old(self).next_nonce,
                i <= n,
                last_sent_with_nonce(a@, nonce@) == last_sent_with_nonce(a@.take(i as int), nonce@),
            decreases i,
        {
            proof {
                assert(a@.take(i as int).last() == a@[i - 1]);
                assert(a@.take(i as int).drop_last() =~= a@.take(i - 1));
            }
            if same_text(a[i - 1].request.nonce.as_str(), nonce) {
                self.awaiting_response.remove(i - 1);
                return;
            }
            i = i - 1;
        }
        let p = &self.pending;
        let m = p.len();
        let mut j: usize = m;
        proof {
            assert(p@.take(m as int) =~= p@);
        }
        while j > 0
            invariant
                m == p@.len(),
                p@ == self.pending@,
                p@ == old(self).pending@,
                self.awaiting_response@ == old(self).awaiting_response@,
                last_sent_with_nonce(old(self).awaiting_response@, nonce@) is None,
                self.in_flight == old(self).in_flight,
                !(old(self).in_flight matches Some(f) && f.request.nonce@ == nonce@),
                self.guild_rate_limit_until@ == old(self).guild_rate_limit_until@,
                self.next_nonce == old(self).next_nonce,
                j <= m,
                last_pending_with_nonce(p@, nonce@) == last_pending_with_nonce(p@.take(j as int), nonce@),
            decreases j,
        {
            proof {
                assert(p@.take(j as int).last() == p@[j - 1]);
                assert(p@.take(j as int).drop_last() =~= p@.take(j - 1));
            }
            if same_text(p[j - 1].request.nonce.as_str(), nonce) {
                self.pending.remove(j - 1);
                return;
            }
            j = j - 1;
        }
    }

    fn is_compatible(&self, i: usize, guild_id: Id<GuildMarker>, presences: bool) -> (b: bool)
        requires
            i < self.pending@.len(),
        ensures
            b == compatible(self.pending@[i as int], guild_id@, presences),
    {
        let request = &self.pending[i].request;
        request.guild_id.get() == guild_id.get() && match &request.kind {
            GuildMemberRequestKind::ByIds { presences: pr, .. } => *pr == presences,
            GuildMemberRequestKind::Search { .. } => false,
        }
    }

    /// Phase one of `enqueue_by_ids`: the requested users, each once, in
    /// order, without those a compatible queued request already names; and
    /// how many more the compatible requests could take.
    fn unqueued_users(&self, guild_id: Id<GuildMarker>, user_ids: &Vec<Id<UserMarker>>, presences: bool) -> (r: (Vec<Id<UserMarker>>, usize))
        ensures
            forall|k: int| 0 <= k < user_ids@.len() ==> has_user(r.0@, (#[trigger] user_ids@[k])@) || covered(self.pending@, guild_id@, presences, user_ids@[k]@),
            r.0@ == unnamed_from(self.pending@, 0, first_occurrences(user_ids@), guild_id@, presences),
            r.1 as int == saturated(room_from(self.pending@, 0, guild_id@, presences)),
    {
        let mut remaining: Vec<Id<UserMarker>> = Vec::new();
        let n = user_ids.len();
        let mut i: usize = 0;
        proof {
            assert(user_ids@.take(0) =~= Seq::<Id<UserMarker>>::empty());
        }
        while i < n
            invariant
                n == user_ids@.len(),
                i <= n,
                forall|k: int| 0 <= k < i ==> has_user(remaining@, (#[trigger] user_ids@[k])@),
                remaining@ == first_occurrences(user_ids@.take(i as int)),
            decreases n - i,
        {
            let u = user_ids[i];
            proof {
                assert(user_ids@.take(i + 1).drop_last() =~= user_ids@.take(i as int));
                assert(user_ids@.take(i + 1).last() == u);
            }
            if !contains_user(&remaining, u) {
                let ghost before = remaining@;
                remaining.push(u);
                proof {
                    assert(remaining@ == before.push(u));
                    assert forall|k: int| 0 <= k <= i implies has_user(remaining@, (#[trigger] user_ids@[k])@) by {
                        if k < i {
                            let w = choose|w: int| 0 <= w < before.len() && before[w]@ == user_ids@[k]@;
                            assert(remaining@[w] == before[w]);
                        } else {
                            assert(remaining@[before.len() as int] == u);
                        }
                    }
                }
            }
            i = i + 1;
        }
        let m = self.pending.len();
        let mut available: usize = 0;
        let mut j: usize = 0;
        let ghost p = self.pending@;
        proof {
            assert(user_ids@.take(n as int) =~= user_ids@);
        }
        let ghost r0 = remaining@;
        while j < m
            invariant
                n == user_ids@.len(),
                m == self.pending@.len(),
                p == self.pending@,
                j <= m,
                forall|k: int| 0 <= k < n ==> has_user(remaining@, (#[trigger] user_ids@[k])@) || covered(self.pending@, guild_id@, presences, user_ids@[k]@),
                unnamed_from(p, j as int, remaining@, guild_id@, presences) == unnamed_from(p, 0, r0, guild_id@, presences),
                available as int == saturated(room_from(p, 0, guild_id@, presences) - room_from(p, j as int, guild_id@, presences)),
            decreases m - j,
        {
            if self.is_compatible(j, guild_id, presences) {
                let ghost before = remaining@;
                let named = &self.pending[j];
                remaining = drop_named_users(remaining, named);
                let count = user_count(named);
                let room: usize = if count >= MAX_USER_IDS_PER_REQUEST { 0 } else { MAX_USER_IDS_PER_REQUEST - count };
                proof {
                    assert(room as int == room_of(p[j as int]));
                    assert(room_from(p, j as int, guild_id@, presences) == room + room_from(p, j + 1, guild_id@, presences));
                }
                available = available.saturating_add(room);
                proof {
                    assert forall|k: int| 0 <= k < n implies has_user(remaining@, (#[trigger] user_ids@[k])@) || covered(self.pending@, guild_id@, presences, user_ids@[k]@) by {
                        if has_user(before, user_ids@[k]@) && !has_user(remaining@, user_ids@[k]@) {
                            assert(covers(self.pending@[j as int], guild_id@, presences, user_ids@[k]@));
                        }
                    }
                }
            } else {
                proof {
                    assert(room_from(p, j as int, guild_id@, presences) == room_from(p, j + 1, guild_id@, presences));
                }
            }
            j = j + 1;
        }
        proof {
            assert(unnamed_from(p, m as int, remaining@, guild_id@, presences) == remaining@);
            assert(room_from(p, m as int, guild_id@, presences) == 0);
        }
        (remaining, available)
    }

    /// Extend the compatible request at `i` with up to its room in the
    /// remaining users; they are taken from the front.
    fn fill_request(&mut self, i: usize, remaining: Vec<Id<UserMarker>>, guild_id: Id<GuildMarker>, presences: bool, ghost_users: Ghost<Seq<Id<UserMarker>>>) -> (rest: Vec<Id<UserMarker>>)
        requires
            i < old(self).pending@.len(),
            compatible(old(self).pending@[i as int], guild_id@, presences),
            forall|k: int| 0 <= k < ghost_users@.len() ==> has_user(remaining@, (#[trigger] ghost_users@[k])@) || covered(old(self).pending@, guild_id@, presences, ghost_users@[k]@),
        ensures
            final(self).pending@.len() == old(self).pending@.len(),
            forall|j: int| 0 <= j < final(self).pending@.len() && j != i ==> final(self).pending@[j] == old(self).pending@[j],
            compatible(final(self).pending@[i as int], guild_id@, presences),
            ({
                let p = old(self).pending@[i as int];
                let q = final(self).pending@[i as int];
                let fresh = unnamed_users(p, remaining@);
                let taken = fill_count(p, remaining@);
                &&& q.send_at == p.send_at
                &&& q.request.guild_id == p.request.guild_id
                &&& q.request.nonce == p.request.nonce
                &&& users_of(q) == users_of(p) + fresh.take(taken)
                &&& rest@ == fresh.skip(taken)
            }),
            forall|k: int| 0 <= k < ghost_users@.len() ==> has_user(rest@, (#[trigger] ghost_users@[k])@) || covered(final(self).pending@, guild_id@, presences, ghost_users@[k]@),
            final(self).in_flight == old(self).in_flight,
            final(self).awaiting_response@ == old(self).awaiting_response@,
            final(self).guild_rate_limit_until@ == old(self).guild_rate_limit_until@,
            final(self).next_nonce == old(self).next_nonce,
    {
        let ghost users = ghost_users@;
        let ghost p0 = self.pending@;
        let ghost r0 = remaining@;
        let remaining = drop_named_users(remaining, &self.pending[i]);
        let ghost r1 = remaining@;
        let ghost old_users = users_of(p0[i as int]);
        let count = user_count(&self.pending[i]);
        let room: usize = if count >= MAX_USER_IDS_PER_REQUEST { 0 } else { MAX_USER_IDS_PER_REQUEST - count };
        let added = if remaining.len() <= room { remaining.len() } else { room };
        let mut drained = remaining;
        let rest = drained.split_off(added);
        let ghost whole = drained@ + rest@;
        proof {
            assert(added == fill_count(p0[i as int], r0));
            assert(drained@ =~= r1.take(added as int));
            assert(rest@ =~= r1.skip(added as int));
            assert(whole =~= r1);
            assert forall|k: int| 0 <= k < users.len() implies has_user(whole, (#[trigger] users[k])@) || covers(p0[i as int], guild_id@, presences, users[k]@) || covered(p0, guild_id@, presences, users[k]@) by {
                let u = users[k]@;
                if has_user(r0, u) && !has_user(r1, u) {
                    assert(has_user(old_users, u));
                }
            }
        }
        let item = self.pending.remove(i);
        let PendingGuildMemberRequest { request, send_at } = item;
        let GuildMemberRequest { guild_id: g, nonce, kind } = request;
        let ghost mut new_users: Seq<Id<UserMarker>> = Seq::empty();
        let ghost d = drained@;
        let new_kind = match kind {
            GuildMemberRequestKind::ByIds { user_ids, presences: pr } => {
                let mut ids = user_ids;
                ids.append(&mut drained);
                proof {
                    new_users = ids@;
                    assert(ids@ == old_users + d);
                }
                GuildMemberRequestKind::ByIds { user_ids: ids, presences: pr }
            },
            GuildMemberRequestKind::Search { query, limit, presences: pr } => {
                proof {
                    assert(false);
                }
                GuildMemberRequestKind::Search { query, limit, presences: pr }
            },
        };
        self.pending.insert(i, PendingGuildMemberRequest { request: GuildMemberRequest { guild_id: g, nonce, kind: new_kind }, send_at });
        proof {
            let p1 = self.pending@;
            assert(p1.len() == p0.len());
            assert forall|j: int| 0 <= j < p1.len() && j != i implies p1[j] == p0[j] by {
                if j < i {
                    assert(p1[j] == p0.remove(i as int)[j]);
                } else {
                    assert(p1[j] == p0.remove(i as int)[j - 1]);
                }
            }
            assert(users_of(p1[i as int]) == new_users);
            assert(new_users == old_users + d);
            assert forall|k: int| 0 <= k < users.len() implies has_user(rest@, (#[trigger] users[k])@) || covered(p1, guild_id@, presences, users[k]@) by {
                let u = users[k]@;
                if has_user(whole, u) {
                    lemma_has_user_split(d, rest@, u);
                    if has_user(d, u) {
                        lemma_has_user_right(users_of(p0[i as int]), d, u);
                        assert(covers(p1[i as int], guild_id@, presences, u));
                    }
                } else if covers(p0[i as int], guild_id@, presences, u) {
                    lemma_has_user_left(users_of(p0[i as int]), d, u);
                    assert(covers(p1[i as int], guild_id@, presences, u));
                } else {
                    let w = choose|w: int| 0 <= w < p0.len() && covers(#[trigger] p0[w], guild_id@, presences, u);
                    if w == i {
                        lemma_has_user_left(users_of(p0[i as int]), d, u);
                        assert(covers(p1[i as int], guild_id@, presences, u));
                    } else {
                        assert(covers(p1[w], guild_id@, presences, u));
                    }
                }
            }
        }
        rest
    }

    /// What queueing requests for given users does to the scheduler: the
    /// queue pruned of expired answers and deadlines; the users taken each
    /// once, less those a compatible queued request names; room made for
    /// the new requests they need; compatible requests filled in order up
    /// to a hundred users each; and what is left queued in new requests of
    /// a hundred, each with the next nonce, behind the guild's deadline.
    pub open spec fn by_ids_applied(
        before: GuildMemberRequestScheduler,
        after: GuildMemberRequestScheduler,
        guild_id: Id<GuildMarker>,
        user_ids: Seq<Id<UserMarker>>,
        presences: bool,
        now: u64,
    ) -> bool {
        let g = guild_id@;
        let p0 = before.pending@;
        let r1 = unnamed_from(p0, 0, first_occurrences(user_ids), g, presences);
        let room = saturated(room_from(p0, 0, g, presences));
        let p1 = drop_searches(p0, by_ids_overflow(p0.len() as int, new_request_count(r1.len() as int, room) as int));
        let plan = fill_plan(p1, 0, r1, g, presences);
        let chunks = chunks_of(plan.1);
        let at = request_at(live_limits(before.guild_rate_limit_until@, now), g, now);
        &&& after.pending@.len() == p1.len() + chunks.len()
        &&& forall|j: int| 0 <= j < p1.len() ==> extended_by(p1[j], #[trigger] after.pending@[j], plan.0[j], g, presences)
        &&& forall|k: int| 0 <= k < chunks.len() ==> new_by_ids(
            #[trigger] after.pending@[p1.len() + k],
            chunks[k],
            nonce_text(nonce_after(before.next_nonce, k as nat)),
            guild_id,
            presences,
            at,
        )
        &&& after.next_nonce == nonce_after(before.next_nonce, chunks.len())
        &&& after.awaiting_response@ == drop_expired(before.awaiting_response@, now)
        &&& after.guild_rate_limit_until@ == live_limits(before.guild_rate_limit_until@, now)
        &&& after.in_flight == before.in_flight
    }

    /// Queue requests for the given users of a guild. Each is asked for
    /// once: those a compatible queued request (same guild, same presences)
    /// names are left to it, the rest fill compatible requests up to a
    /// hundred users each, and what remains goes out in new requests of up
    /// to a hundred, room made for them by dropping the oldest searches.
    /// No requested user is left out of the queue.
    pub fn enqueue_by_ids(&mut self, guild_id: Id<GuildMarker>, user_ids: Vec<Id<UserMarker>>, presences: bool, now: u64)
        ensures
            forall|k: int| 0 <= k < user_ids@.len() ==> covered(final(self).pending@, guild_id@, presences, (#[trigger] user_ids@[k])@),
            Self::by_ids_applied(*old(self), *final(self), guild_id, user_ids@, presences, now),
            final(self).awaiting_response@ == drop_expired(old(self).awaiting_response@, now),
            final(self).guild_rate_limit_until@ == live_limits(old(self).guild_rate_limit_until@, now),
            final(self).in_flight == old(self).in_flight,
    {
        self.prune_expired(now);
        let ghost users = user_ids@;
        let ghost g = guild_id@;
        let ghost n0 = self.next_nonce;
        let ghost at = request_at(self.guild_rate_limit_until@, g, now);
        let (remaining, available) = self.unqueued_users(guild_id, &user_ids, presences);
        let excess = if remaining.len() >= available { remaining.len() - available } else { 0 };
        let new_requests = excess / 100 + if excess % 100 != 0 { 1 } else { 0 };
        let ghost p_before = self.pending@;
        self.make_room_for_by_ids(new_requests);
        let ghost p1 = self.pending@;
        let ghost r1 = remaining@;
        let ghost plan = fill_plan(p1, 0, r1, g, presences);
        proof {
            assert(new_requests as int == new_request_count(r1.len() as int, available as int));
            assert(p1 == drop_searches(p_before, by_ids_overflow(p_before.len() as int, new_requests as int)));
            lemma_fill_plan_len(p1, 0, r1, g, presences);
            assert forall|k: int| 0 <= k < users.len() implies has_user(remaining@, (#[trigger] users[k])@) || covered(self.pending@, guild_id@, presences, users[k]@) by {
                if covered(p_before, guild_id@, presences, users[k]@) {
                    lemma_drop_searches_keeps_cover(
                        p_before,
                        by_ids_overflow(p_before.len() as int, new_requests as int),
                        guild_id@,
                        presences,
                        users[k]@,
                    );
                }
            }
            assert(plan.0.skip(0) =~= plan.0);
        }
        let mut remaining = remaining;
        let n = self.pending.len();
        let mut i: usize = 0;
        while i < n
            invariant
                n == self.pending@.len(),
                n == p1.len(),
                plan.0.len() == n,
                plan == fill_plan(p1, 0, r1, g, presences),
                g == guild_id@,
                r1 == unnamed_from(old(self).pending@, 0, first_occurrences(user_ids@), g, presences),
                p1 == drop_searches(
                    old(self).pending@,
                    by_ids_overflow(
                        old(self).pending@.len() as int,
                        new_request_count(r1.len() as int, saturated(room_from(old(self).pending@, 0, g, presences))) as int,
                    ),
                ),
                n0 == old(self).next_nonce,
                i <= n,
                users == user_ids@,
                forall|k: int| 0 <= k < users.len() ==> has_user(remaining@, (#[trigger] users[k])@) || covered(self.pending@, guild_id@, presences, users[k]@),
                fill_plan(p1, i as int, remaining@, g, presences).0 == plan.0.skip(i as int),
                fill_plan(p1, i as int, remaining@, g, presences).1 == plan.1,
                forall|j: int| 0 <= j < i ==> extended_by(p1[j], #[trigger] self.pending@[j], plan.0[j], g, presences),
                forall|j: int| i <= j < n ==> #[trigger] self.pending@[j] == p1[j],
                self.in_flight == old(self).in_flight,
                self.awaiting_response@ == drop_expired(old(self).awaiting_response@, now),
                self.guild_rate_limit_until@ == live_limits(old(self).guild_rate_limit_until@, now),
                self.next_nonce == n0,
            decreases n - i,
        {
            let ghost cur = self.pending@;
            let ghost r_in = remaining@;
            if self.is_compatible(i, guild_id, presences) {
                remaining = self.fill_request(i, remaining, guild_id, presences, Ghost(users));
                proof {
                    let fresh = unnamed_users(p1[i as int], r_in);
                    let t = fill_count(p1[i as int], r_in);
                    let rest = fill_plan(p1, i + 1, fresh.skip(t), g, presences);
                    assert(fill_plan(p1, i as int, r_in, g, presences) == (seq![fresh.take(t)] + rest.0, rest.1));
                    assert(plan.0.skip(i as int)[0] == plan.0[i as int]);
                    assert(plan.0[i as int] == fresh.take(t));
                    assert(plan.0.skip(i + 1) =~= plan.0.skip(i as int).drop_first());
                    assert((seq![fresh.take(t)] + rest.0).drop_first() =~= rest.0);
                    assert forall|j: int| 0 <= j <= i implies extended_by(p1[j], #[trigger] self.pending@[j], plan.0[j], g, presences) by {
                        if j < i {
                            assert(self.pending@[j] == cur[j]);
                        }
                    }
                }
                if remaining.len() == 0 {
                    proof {
                        lemma_fill_plan_empty(p1, i + 1, g, presences);
                        assert(remaining@ =~= Seq::<Id<UserMarker>>::empty());
                        assert(plan.1 =~= Seq::<Id<UserMarker>>::empty());
                        assert(chunks_of(plan.1) =~= Seq::<Seq<Id<UserMarker>>>::empty());
                        assert forall|j: int| 0 <= j < n implies extended_by(p1[j], #[trigger] self.pending@[j], plan.0[j], g, presences) by {
                            if j > i {
                                assert(self.pending@[j] == cur[j]);
                                assert(plan.0[j] == plan.0.skip(i + 1)[j - i - 1]);
                                assert(users_of(p1[j]) + Seq::<Id<UserMarker>>::empty() =~= users_of(p1[j]));
                            }
                        }
                        assert forall|k: int| 0 <= k < users.len() implies covered(self.pending@, guild_id@, presences, (#[trigger] users[k])@) by {
                            if has_user(remaining@, users[k]@) {
                                assert(false);
                            }
                        }
                    }
                    return;
                }
            } else {
                proof {
                    let rest = fill_plan(p1, i + 1, r_in, g, presences);
                    assert(fill_plan(p1, i as int, r_in, g, presences) == (seq![Seq::<Id<UserMarker>>::empty()] + rest.0, rest.1));
                    assert(plan.0.skip(i as int)[0] == plan.0[i as int]);
                    assert(plan.0.skip(i + 1) =~= plan.0.skip(i as int).drop_first());
                    assert((seq![Seq::<Id<UserMarker>>::empty()] + rest.0).drop_first() =~= rest.0);
                }
            }
            i = i + 1;
        }
        let ghost p2 = self.pending@;
        let ghost chunks = chunks_of(plan.1);
        let ghost mut c: nat = 0;
        proof {
            assert(fill_plan(p1, n as int, remaining@, g, presences).1 == remaining@);
            assert(chunks.skip(0) =~= chunks);
        }
        while remaining.len() > 0
            invariant
                users == user_ids@,
                g == guild_id@,
                n == p1.len(),
                n == p2.len(),
                forall|k: int| 0 <= k < users.len() ==> has_user(remaining@, (#[trigger] users[k])@) || covered(self.pending@, guild_id@, presences, users[k]@),
                c <= chunks.len(),
                chunks_of(remaining@) == chunks.skip(c as int),
                self.pending@.len() == n + c,
                forall|j: int| 0 <= j < n ==> #[trigger] self.pending@[j] == p2[j],
                forall|k: int| 0 <= k < c ==> new_by_ids(
                    #[trigger] self.pending@[n + k],
                    chunks[k],
                    nonce_text(nonce_after(n0, k as nat)),
                    guild_id,
                    presences,
                    at,
                ),
                self.next_nonce == nonce_after(n0, c),
                at == request_at(self.guild_rate_limit_until@, g, now),
                self.in_flight == old(self).in_flight,
                self.awaiting_response@ == drop_expired(old(self).awaiting_response@, now),
                self.guild_rate_limit_until@ == live_limits(old(self).guild_rate_limit_until@, now),
            decreases remaining@.len(),
        {
            let take = if remaining.len() <= MAX_USER_IDS_PER_REQUEST { remaining.len() } else { MAX_USER_IDS_PER_REQUEST };
            let ghost r0 = remaining@;
            let mut chunk = remaining;
            let rest = chunk.split_off(take);
            proof {
                assert(r0 =~= chunk@ + rest@);
                if r0.len() <= MAX_USER_IDS_PER_REQUEST {
                    assert(chunk@ =~= r0);
                    assert(rest@ =~= Seq::<Id<UserMarker>>::empty());
                    assert(chunks_of(r0) == seq![r0]);
                    assert(chunks_of(r0) =~= seq![chunk@] + chunks_of(rest@));
                } else {
                    assert(chunk@ =~= r0.take(MAX_USER_IDS_PER_REQUEST as int));
                    assert(rest@ =~= r0.skip(MAX_USER_IDS_PER_REQUEST as int));
                }
                assert(chunks_of(r0) =~= seq![chunk@] + chunks_of(rest@));
                assert(chunks.skip(c as int)[0] == chunks[c as int]);
                assert(chunks[c as int] == chunk@);
                assert(chunks.skip((c + 1) as int) =~= chunks.skip(c as int).drop_first());
                assert((seq![chunk@] + chunks_of(rest@)).drop_first() =~= chunks_of(rest@));
            }
            let ghost cc = chunk@;
            let ghost p0 = self.pending@;
            let ghost k0 = self.next_nonce;
            let nonce = self.next_nonce();
            let request = GuildMemberRequest {
                guild_id,
                nonce,
                kind: GuildMemberRequestKind::ByIds { user_ids: chunk, presences },
            };
            self.enqueue_by_ids_request(request, now);
            proof {
                let p3 = self.pending@;
                assert(users_of(p3[p0.len() as int]) == cc);
                assert forall|k: int| 0 <= k < users.len() implies has_user(rest@, (#[trigger] users[k])@) || covered(p3, guild_id@, presences, users[k]@) by {
                    let u = users[k]@;
                    if covered(p0, guild_id@, presences, u) {
                        let w = choose|w: int| 0 <= w < p0.len() && covers(#[trigger] p0[w], guild_id@, presences, u);
                        assert(p3[w] == p0[w]);
                    } else {
                        lemma_has_user_split(cc, rest@, u);
                        if has_user(cc, u) {
                            assert(covers(p3[p0.len() as int], guild_id@, presences, u));
                        }
                    }
                }
                assert forall|j: int| 0 <= j < n implies #[trigger] p3[j] == p2[j] by {
                    assert(p3[j] == p0[j]);
                }
                assert forall|k: int| 0 <= k <= c implies new_by_ids(
                    #[trigger] p3[n + k],
                    chunks[k],
                    nonce_text(nonce_after(n0, k as nat)),
                    guild_id,
                    presences,
                    at,
                ) by {
                    if k < c {
                        assert(p3[n + k] == p0[n + k]);
                    }
                }
                assert(nonce_after(n0, c + 1) == nonce_step(nonce_after(n0, c)));
                c = c + 1;
            }
            remaining = rest;
        }
        proof {
            assert(chunks_of(remaining@) =~= Seq::<Seq<Id<UserMarker>>>::empty());
            assert(chunks.skip(c as int).len() == 0);
            assert(c == chunks.len());
            assert forall|k: int| 0 <= k < users.len() implies covered(self.pending@, guild_id@, presences, (#[trigger] users[k])@) by {
                if has_user(remaining@, users[k]@) {
                    assert(false);
                }
            }
            assert forall|j: int| 0 <= j < n implies extended_by(p1[j], #[trigger] self.pending@[j], plan.0[j], g, presences) by {
                assert(self.pending@[j] == p2[j]);
            }
        }
    }

    /// Put the sent requests still awaiting an answer back on the queue,
    /// due at `earliest`, ahead of what was queued; a search is dropped when
    /// a newer search for its guild is queued. The guilds of recovered
    /// requests hold their queued requests until `earliest`.
    pub fn recover_awaiting(&mut self, earliest: u64)
        ensures
            final(self).awaiting_response@.len() == 0,
            final(self).pending@.len() >= old(self).pending@.len(),
            ({
                let d = final(self).pending@.len() - old(self).pending@.len();
                &&& forall|i: int| 0 <= i < old(self).pending@.len() ==> (#[trigger] final(self).pending@[d + i]).request == old(self).pending@[i].request
                &&& forall|k: int| 0 <= k < old(self).awaiting_response@.len() && !(#[trigger] old(self).awaiting_response@[k]).request.searching() ==>
                    exists|i: int| 0 <= i < d && (#[trigger] final(self).pending@[i]).request == old(self).awaiting_response@[k].request
            }),
            ({
                let r = recovered_from(old(self).awaiting_response@, old(self).pending@, Seq::empty(), earliest);
                final(self).pending@ == delayed_for(r + old(self).pending@, r, earliest)
            }),
            final(self).in_flight == old(self).in_flight,
            final(self).guild_rate_limit_until@ == old(self).guild_rate_limit_until@,
            final(self).next_nonce == old(self).next_nonce,
    {
        let ghost a0 = self.awaiting_response@;
        let ghost p0 = self.pending@;
        let ghost whole = recovered_from(a0, p0, Seq::empty(), earliest);
        let mut recovered: Vec<PendingGuildMemberRequest> = Vec::new();
        let mut guilds: Vec<Id<GuildMarker>> = Vec::new();
        proof {
            assert(a0.take(a0.len() as int) =~= a0);
        }
        while self.awaiting_response.len() > 0
            invariant
                self.awaiting_response@ == a0.take(self.awaiting_response@.len() as int),
                self.awaiting_response@.len() <= a0.len(),
                self.pending@ == p0,
                recovered_from(self.awaiting_response@, p0, recovered@, earliest) == whole,
                whole == recovered_from(a0, p0, Seq::empty(), earliest),
                forall|x: u64| (exists|k: int| 0 <= k < guilds@.len() && (#[trigger] guilds@[k])@ == x) == has_guild(recovered@, x),
                forall|k: int| self.awaiting_response@.len() <= k < a0.len() && !(#[trigger] a0[k]).request.searching() ==>
                    exists|i: int| 0 <= i < recovered@.len() && (#[trigger] recovered@[i]).request == a0[k].request,
                self.in_flight == old(self).in_flight,
                self.guild_rate_limit_until@ == old(self).guild_rate_limit_until@,
                self.next_nonce == old(self).next_nonce,
            decreases self.awaiting_response@.len(),
        {
            let ghost m = self.awaiting_response@.len();
            let sent = self.awaiting_response.pop().unwrap();
            proof {
                assert(sent == a0[m - 1]);
                assert(self.awaiting_response@ =~= a0.take(m - 1));
            }
            let ghost sg = sent.request.guild_id@;
            let mut superseded = false;
            if sent.request.is_search() {
                if self.pending_has_search_for(sent.request.guild_id) {
                    superseded = true;
                } else {
                    let mut j: usize = 0;
                    while j < recovered.len()
                        invariant_except_break
                            !superseded,
                        invariant
                            j <= recovered@.len(),
                            sg == sent.request.guild_id@,
                            forall|i: int| 0 <= i < j ==> !((#[trigger] recovered@[i]).request.guild_id@ == sg && recovered@[i].request.searching()),
                        ensures
                            superseded == has_search_for(recovered@, sg),
                        decreases recovered@.len() - j,
                    {
                        if recovered[j].request.guild_id.get() == sent.request.guild_id.get() && recovered[j].request.is_search() {
                            superseded = true;
                            break;
                        }
                        j = j + 1;
                    }
                }
            }
            proof {
                assert(superseded == (sent.request.searching() && (has_search_for(p0, sg) || has_search_for(recovered@, sg))));
                assert(self.awaiting_response@ == a0.take(m - 1));
                assert(a0.take(m as int).drop_last() =~= a0.take(m - 1));
                assert(a0.take(m as int).last() == sent);
            }
            if !superseded {
                let ghost gs0 = guilds@;
                guilds.push(sent.request.guild_id);
                let ghost r0 = recovered@;
                recovered.insert(0, PendingGuildMemberRequest { request: sent.request, send_at: earliest });
                proof {
                    assert(recovered@ =~= seq![PendingGuildMemberRequest { request: sent.request, send_at: earliest }] + r0);
                    assert forall|x: u64| (exists|k: int| 0 <= k < guilds@.len() && (#[trigger] guilds@[k])@ == x) == has_guild(recovered@, x) by {
                        if exists|k: int| 0 <= k < guilds@.len() && (#[trigger] guilds@[k])@ == x {
                            let k = choose|k: int| 0 <= k < guilds@.len() && (#[trigger] guilds@[k])@ == x;
                            if k == gs0.len() {
                                assert(recovered@[0].request.guild_id@ == x);
                            } else {
                                assert(gs0[k] == guilds@[k]);
                                assert(gs0[k]@ == x);
                                assert((exists|k2: int| 0 <= k2 < gs0.len() && (#[trigger] gs0[k2])@ == x) == has_guild(r0, x));
                                let i = choose|i: int| 0 <= i < r0.len() && (#[trigger] r0[i]).request.guild_id@ == x;
                                assert(recovered@[i + 1] == r0[i]);
                            }
                        }
                        if has_guild(recovered@, x) {
                            let i = choose|i: int| 0 <= i < recovered@.len() && (#[trigger] recovered@[i]).request.guild_id@ == x;
                            if i == 0 {
                                assert(guilds@[gs0.len() as int]@ == x);
                            } else {
                                assert(recovered@[i] == r0[i - 1]);
                                assert(has_guild(r0, x));
                                assert((exists|k2: int| 0 <= k2 < gs0.len() && (#[trigger] gs0[k2])@ == x) == has_guild(r0, x));
                                let k = choose|k: int| 0 <= k < gs0.len() && (#[trigger] gs0[k])@ == x;
                                assert(guilds@[k] == gs0[k]);
                            }
                        }
                    }
                    assert(recovered@ == r0.insert(0, PendingGuildMemberRequest { request: a0[m - 1].request, send_at: earliest }));
                    assert forall|k: int| m - 1 <= k < a0.len() && !(#[trigger] a0[k]).request.searching() implies
                        exists|i: int| 0 <= i < recovered@.len() && (#[trigger] recovered@[i]).request == a0[k].request by {
                        if k == m - 1 {
                            assert(recovered@[0].request == a0[k].request);
                        } else {
                            let w = choose|i: int| 0 <= i < r0.len() && (#[trigger] r0[i]).request == a0[k].request;
                            assert(recovered@[w + 1] == r0[w]);
                        }
                    }
                }
            }
        }
        let ghost r = recovered@;
        recovered.append(&mut self.pending);
        self.pending = recovered;
        proof {
            assert(self.pending@ == r + p0);
        }
        let ghost p1 = self.pending@;
        let g_count = guilds.len();
        let mut j: usize = 0;
        proof {
            assert(recovered_from(Seq::<SentGuildMemberRequest>::empty(), p0, r, earliest) == r);
            assert(delayed_guilds(p1, guilds@.take(0), earliest) =~= p1);
        }
        while j < g_count
            invariant
                g_count == guilds@.len(),
                j <= g_count,
                self.pending@ == delayed_guilds(p1, guilds@.take(j as int), earliest),
                self.pending@.len() == p1.len(),
                forall|i: int| 0 <= i < p1.len() ==> (#[trigger] self.pending@[i]).request == p1[i].request,
                self.awaiting_response@.len() == 0,
                self.in_flight == old(self).in_flight,
                self.guild_rate_limit_until@ == old(self).guild_rate_limit_until@,
                self.next_nonce == old(self).next_nonce,
            decreases g_count - j,
        {
            let ghost before = self.pending@;
            self.delay_pending_guild_until(guilds[j], earliest);
            proof {
                let gs = guilds@.take(j + 1);
                assert forall|i: int| 0 <= i < p1.len() implies #[trigger] self.pending@[i] == delayed_guilds(p1, gs, earliest)[i] by {
                    let x = p1[i].request.guild_id@;
                    if exists|k: int| 0 <= k < gs.len() && (#[trigger] gs[k])@ == x {
                        let k = choose|k: int| 0 <= k < gs.len() && (#[trigger] gs[k])@ == x;
                        if k < j {
                            assert(guilds@.take(j as int)[k] == gs[k]);
                        }
                    } else {
                        assert(gs[j as int] == guilds@[j as int]);
                        assert forall|k: int| 0 <= k < j implies (#[trigger] guilds@.take(j as int)[k])@ != x by {
                            assert(guilds@.take(j as int)[k] == gs[k]);
                        }
                    }
                }
                assert(self.pending@ =~= delayed_guilds(p1, gs, earliest));
            }
            j = j + 1;
        }
        proof {
            assert(guilds@.take(g_count as int) =~= guilds@);
            assert(r == whole);
            assert forall|i: int| 0 <= i < p1.len() implies #[trigger] self.pending@[i] == delayed_for(p1, r, earliest)[i] by {
                let x = p1[i].request.guild_id@;
                if exists|k: int| 0 <= k < guilds@.len() && (#[trigger] guilds@[k])@ == x {
                    assert(has_guild(r, x));
                } else {
                    assert(!has_guild(r, x));
                }
            }
            assert(self.pending@ =~= delayed_for(r + p0, r, earliest));
            let d = self.pending@.len() - p0.len();
            assert(d == r.len());
            assert forall|i: int| 0 <= i < p0.len() implies (#[trigger] self.pending@[d + i]).request == p0[i].request by {
                assert(p1[d + i] == p0[i]);
            }
            assert forall|k: int| 0 <= k < a0.len() && !(#[trigger] a0[k]).request.searching() implies
                exists|i: int| 0 <= i < d && (#[trigger] self.pending@[i]).request == a0[k].request by {
                let w = choose|i: int| 0 <= i < r.len() && (#[trigger] r[i]).request == a0[k].request;
                assert(p1[w] == r[w]);
                assert(self.pending@[w].request == p1[w].request);
            }
        }
    }

    /// Before reconnecting: forget what has expired, and put both an
    /// unanswered in-flight request and the requests awaiting answers back
    /// on the queue. No unanswered request for given users is lost.
    pub fn prepare_reconnect(&mut self, now: u64)
        ensures
            final(self).in_flight is None,
            final(self).awaiting_response@.len() == 0,
            final(self).pending@ == reconnect_queue(*old(self), now),
            forall|i: int| 0 <= i < old(self).pending@.len() ==> exists|j: int| 0 <= j < final(self).pending@.len() && (#[trigger] final(self).pending@[j]).request == (#[trigger] old(self).pending@[i]).request,
            old(self).in_flight is Some && !old(self).in_flight.unwrap().accepted ==> exists|j: int|
                0 <= j < final(self).pending@.len() && (#[trigger] final(self).pending@[j]).request == old(self).in_flight.unwrap().request,
            forall|k: int| 0 <= k < drop_expired(old(self).awaiting_response@, now).len() && !(#[trigger] drop_expired(old(self).awaiting_response@, now)[k]).request.searching() ==>
                exists|j: int| 0 <= j < final(self).pending@.len() && (#[trigger] final(self).pending@[j]).request == drop_expired(old(self).awaiting_response@, now)[k].request,
            final(self).guild_rate_limit_until@ == live_limits(old(self).guild_rate_limit_until@, now),
            final(self).next_nonce == old(self).next_nonce,
    {
        self.prune_expired(now);
        let ghost p0 = self.pending@;
        self.cancel_in_flight(now);
        let ghost p1 = self.pending@;
        let ghost a1 = self.awaiting_response@;
        self.recover_awaiting(now);
        proof {
            let d = self.pending@.len() - p1.len();
            let e = p1.len() - p0.len();
            assert forall|i: int| 0 <= i < p0.len() implies exists|j: int| 0 <= j < self.pending@.len() && (#[trigger] self.pending@[j]).request == (#[trigger] p0[i]).request by {
                let i2 = e + i;
                assert(p1[i2] == p0[i]);
                assert(self.pending@[d + i2].request == p1[i2].request);
            }
            if old(self).in_flight is Some && !old(self).in_flight.unwrap().accepted {
                let f = old(self).in_flight.unwrap();
                assert(p1[0].request == f.request);
                assert(self.pending@[d + 0].request == p1[0].request);
            }
        }
    }

    /// A new session starts from a clean slate for pacing, except that a
    /// RATE_LIMITED deadline is about the account and survives it: what
    /// `prepare_reconnect` recovers, each request held until its guild's
    /// deadline, and not before now.
    pub fn start_new_session(&mut self, now: u64)
        ensures
            final(self).in_flight is None,
            final(self).awaiting_response@.len() == 0,
            final(self).pending@ == held_until_deadlines(reconnect_queue(*old(self), now), live_limits(old(self).guild_rate_limit_until@, now), now),
            forall|i: int| 0 <= i < final(self).pending@.len() ==> (#[trigger] final(self).pending@[i]).send_at >= request_at(
                final(self).guild_rate_limit_until@,
                final(self).pending@[i].request.guild_id@,
                now,
            ),
            forall|i: int| 0 <= i < old(self).pending@.len() ==> exists|j: int| 0 <= j < final(self).pending@.len() && (#[trigger] final(self).pending@[j]).request == (#[trigger] old(self).pending@[i]).request,
            old(self).in_flight is Some && !old(self).in_flight.unwrap().accepted ==> exists|j: int|
                0 <= j < final(self).pending@.len() && (#[trigger] final(self).pending@[j]).request == old(self).in_flight.unwrap().request,
            final(self).guild_rate_limit_until@ == live_limits(old(self).guild_rate_limit_until@, now),
            final(self).next_nonce == old(self).next_nonce,
    {
        self.prepare_reconnect(now);
        let ghost p0 = self.pending@;
        let n = self.pending.len();
        let mut i: usize = 0;
        while i < n
            invariant
                n == p0.len(),
                self.pending@.len() == n,
                i <= n,
                forall|k: int| 0 <= k < n ==> (#[trigger] self.pending@[k]).request == p0[k].request,
                forall|k: int| 0 <= k < i ==> (#[trigger] self.pending@[k]).send_at >= request_at(self.guild_rate_limit_until@, self.pending@[k].request.guild_id@, now),
                forall|k: int| 0 <= k < i ==> #[trigger] self.pending@[k] == held_until_deadlines(p0, self.guild_rate_limit_until@, now)[k],
                forall|k: int| i <= k < n ==> #[trigger] self.pending@[k] == p0[k],
                p0 == reconnect_queue(*old(self), now),
                self.in_flight is None,
                self.awaiting_response@.len() == 0,
                self.guild_rate_limit_until@ == live_limits(old(self).guild_rate_limit_until@, now),
                self.next_nonce == old(self).next_nonce,
            decreases n - i,
        {
            let at = self.guild_request_at(self.pending[i].request.guild_id, now);
            let current = self.pending[i].send_at;
            if current < at {
                self.pending[i].send_at = at;
            }
            i = i + 1;
        }
        proof {
            assert(self.pending@ =~= held_until_deadlines(p0, self.guild_rate_limit_until@, now));
            assert forall|k: int| 0 <= k < old(self).pending@.len() implies exists|j: int| 0 <= j < self.pending@.len() && (#[trigger] self.pending@[j]).request == (#[trigger] old(self).pending@[k]).request by {
                let w = choose|j: int| 0 <= j < p0.len() && (#[trigger] p0[j]).request == old(self).pending@[k].request;
                assert(self.pending@[w].request == p0[w].request);
            }
            if old(self).in_flight is Some && !old(self).in_flight.unwrap().accepted {
                let f = old(self).in_flight.unwrap();
                let w = choose|j: int| 0 <= j < p0.len() && (#[trigger] p0[j]).request == f.request;
                assert(self.pending@[w].request == p0[w].request);
            }
        }
    }
}


// ---------------------------------------------------------------------------
// Requests for given users stay within a hundred users
// ---------------------------------------------------------------------------

/// Every queued request names at most a hundred users.
pub open spec fn within_a_hundred(p: Seq<PendingGuildMemberRequest>) -> bool {
    forall|j: int| 0 <= j < p.len() ==> (#[trigger] users_of(p[j])).len() <= MAX_USER_IDS_PER_REQUEST
}

proof fn lemma_drop_searches_within(p: Seq<PendingGuildMemberRequest>, k: nat)
    requires
        within_a_hundred(p),
    ensures
        within_a_hundred(drop_searches(p, k)),
    decreases p.len(),
{
    if p.len() == 0 || k == 0 {
    } else {
        let t = p.drop_first();
        assert forall|j: int| 0 <= j < t.len() implies (#[trigger] users_of(t[j])).len() <= MAX_USER_IDS_PER_REQUEST by {
            assert(t[j] == p[j + 1]);
        }
        if p[0].request.searching() {
            lemma_drop_searches_within(t, (k - 1) as nat);
        } else {
            lemma_drop_searches_within(t, k);
            let rest = drop_searches(t, k);
            let d = seq![p[0]] + rest;
            assert forall|j: int| 0 <= j < d.len() implies (#[trigger] users_of(d[j])).len() <= MAX_USER_IDS_PER_REQUEST by {
                if j > 0 {
                    assert(d[j] == rest[j - 1]);
                }
            }
        }
    }
}

/// What the filling gives a request never exceeds its room.
proof fn lemma_fill_plan_within_room(p: Seq<PendingGuildMemberRequest>, i: int, r: Seq<Id<UserMarker>>, g: u64, presences: bool)
    requires
        0 <= i <= p.len(),
    ensures
        forall|k: int| 0 <= k < p.len() - i ==> (#[trigger] fill_plan(p, i, r, g, presences).0[k]).len() <= (if compatible(p[i + k], g, presences) { room_of(p[i + k]) } else { 0 }),
    decreases p.len() - i,
{
    lemma_fill_plan_len(p, i, r, g, presences);
    if i < p.len() {
        let whole = fill_plan(p, i, r, g, presences);
        if compatible(p[i], g, presences) {
            let fresh = unnamed_users(p[i], r);
            let t = fill_count(p[i], r);
            lemma_fill_plan_within_room(p, i + 1, fresh.skip(t), g, presences);
            let rest = fill_plan(p, i + 1, fresh.skip(t), g, presences);
            assert forall|k: int| 0 <= k < p.len() - i implies (#[trigger] whole.0[k]).len() <= (if compatible(p[i + k], g, presences) { room_of(p[i + k]) } else { 0 }) by {
                if k == 0 {
                    assert(whole.0[0] == fresh.take(t));
                } else {
                    assert(whole.0[k] == rest.0[k - 1]);
                    assert(p[i + k] == p[(i + 1) + (k - 1)]);
                }
            }
        } else {
            lemma_fill_plan_within_room(p, i + 1, r, g, presences);
            let rest = fill_plan(p, i + 1, r, g, presences);
            assert forall|k: int| 0 <= k < p.len() - i implies (#[trigger] whole.0[k]).len() <= (if compatible(p[i + k], g, presences) { room_of(p[i + k]) } else { 0 }) by {
                if k > 0 {
                    assert(whole.0[k] == rest.0[k - 1]);
                    assert(p[i + k] == p[(i + 1) + (k - 1)]);
                }
            }
        }
    }
}

/// Every chunk holds between one and a hundred users.
proof fn lemma_chunks_within(r: Seq<Id<UserMarker>>)
    ensures
        forall|k: int| 0 <= k < chunks_of(r).len() ==> 0 < (#[trigger] chunks_of(r)[k]).len() <= MAX_USER_IDS_PER_REQUEST,
    decreases r.len(),
{
    if r.len() > MAX_USER_IDS_PER_REQUEST {
        let rest = r.skip(MAX_USER_IDS_PER_REQUEST as int);
        lemma_chunks_within(rest);
        let whole = chunks_of(r);
        assert forall|k: int| 0 <= k < whole.len() implies 0 < (#[trigger] whole[k]).len() <= MAX_USER_IDS_PER_REQUEST by {
            if k > 0 {
                assert(whole[k] == chunks_of(rest)[k - 1]);
            }
        }
    }
}

/// Queueing requests for given users keeps every queued request within a
/// hundred users, as Discord requires: compatible requests are filled only
/// up to their room, and new requests take a hundred at most.
pub proof fn law_by_ids_requests_hold_at_most_a_hundred(
    before: GuildMemberRequestScheduler,
    after: GuildMemberRequestScheduler,
    guild_id: Id<GuildMarker>,
    user_ids: Seq<Id<UserMarker>>,
    presences: bool,
    now: u64,
)
    requires
        GuildMemberRequestScheduler::by_ids_applied(before, after, guild_id, user_ids, presences, now),
        within_a_hundred(before.pending@),
    ensures
        within_a_hundred(after.pending@),
{
    let g = guild_id@;
    let p0 = before.pending@;
    let r1 = unnamed_from(p0, 0, first_occurrences(user_ids), g, presences);
    let room = saturated(room_from(p0, 0, g, presences));
    let k = by_ids_overflow(p0.len() as int, new_request_count(r1.len() as int, room) as int);
    let p1 = drop_searches(p0, k);
    let plan = fill_plan(p1, 0, r1, g, presences);
    let chunks = chunks_of(plan.1);
    lemma_drop_searches_within(p0, k);
    lemma_fill_plan_within_room(p1, 0, r1, g, presences);
    lemma_fill_plan_len(p1, 0, r1, g, presences);
    lemma_chunks_within(plan.1);
    let q = after.pending@;
    assert forall|j: int| 0 <= j < q.len() implies (#[trigger] users_of(q[j])).len() <= MAX_USER_IDS_PER_REQUEST by {
        if j < p1.len() {
            assert(extended_by(p1[j], q[j], plan.0[j], g, presences));
            assert(plan.0[j].len() <= (if compatible(p1[0 + j], g, presences) { room_of(p1[0 + j]) } else { 0 }));
            assert(users_of(p1[j]).len() <= MAX_USER_IDS_PER_REQUEST);
        } else {
            let c = j - p1.len();
            assert(q[p1.len() + c] == q[j]);
            assert(0 < chunks[c].len() <= MAX_USER_IDS_PER_REQUEST);
        }
    }
}


// ---------------------------------------------------------------------------
// Requests for given users name each user once
// ---------------------------------------------------------------------------

/// No user occurs twice in `s`.
pub open spec fn distinct_users(s: Seq<Id<UserMarker>>) -> bool {
    forall|a: int, b: int| 0 <= a < b < s.len() ==> (#[trigger] s[a])@ != (#[trigger] s[b])@
}

/// Every user of `a` is among `b`.
pub open spec fn users_within(a: Seq<Id<UserMarker>>, b: Seq<Id<UserMarker>>) -> bool {
    forall|k: int| 0 <= k < a.len() ==> has_user(b, (#[trigger] a[k])@)
}

/// No user of `a` is among `b`.
pub open spec fn users_apart(a: Seq<Id<UserMarker>>, b: Seq<Id<UserMarker>>) -> bool {
    forall|k: int| 0 <= k < a.len() ==> !has_user(b, (#[trigger] a[k])@)
}

/// The requests of guild `g` with these presences name every user at most
/// once: none twice within a request, and no two of them the same user.
pub open spec fn named_once(p: Seq<PendingGuildMemberRequest>, g: u64, presences: bool) -> bool {
    &&& forall|j: int| 0 <= j < p.len() && compatible(p[j], g, presences) ==> distinct_users(users_of(#[trigger] p[j]))
    &&& forall|i: int, j: int|
        0 <= i < j < p.len() && compatible(p[i], g, presences) && compatible(p[j], g, presences) ==> users_apart(
            users_of(#[trigger] p[i]),
            users_of(#[trigger] p[j]),
        )
}

proof fn lemma_within_trans(a: Seq<Id<UserMarker>>, b: Seq<Id<UserMarker>>, c: Seq<Id<UserMarker>>)
    requires
        users_within(a, b),
        users_within(b, c),
    ensures
        users_within(a, c),
{
    assert forall|k: int| 0 <= k < a.len() implies has_user(c, (#[trigger] a[k])@) by {
        let w = choose|w: int| 0 <= w < b.len() && b[w]@ == a[k]@;
        assert(has_user(c, b[w]@));
    }
}

proof fn lemma_apart_within(a: Seq<Id<UserMarker>>, b: Seq<Id<UserMarker>>, c: Seq<Id<UserMarker>>)
    requires
        users_within(a, b),
        users_apart(b, c),
    ensures
        users_apart(a, c),
{
    assert forall|k: int| 0 <= k < a.len() implies !has_user(c, (#[trigger] a[k])@) by {
        let w = choose|w: int| 0 <= w < b.len() && b[w]@ == a[k]@;
        assert(!has_user(c, b[w]@));
    }
}

proof fn lemma_apart_symmetric(a: Seq<Id<UserMarker>>, b: Seq<Id<UserMarker>>)
    requires
        users_apart(a, b),
    ensures
        users_apart(b, a),
{
    assert forall|k: int| 0 <= k < b.len() implies !has_user(a, (#[trigger] b[k])@) by {
        if has_user(a, b[k]@) {
            let w = choose|w: int| 0 <= w < a.len() && a[w]@ == b[k]@;
            assert(!has_user(b, a[w]@));
            assert(has_user(b, b[k]@));
        }
    }
}

proof fn lemma_distinct_concat(a: Seq<Id<UserMarker>>, b: Seq<Id<UserMarker>>)
    requires
        distinct_users(a),
        distinct_users(b),
        users_apart(a, b),
    ensures
        distinct_users(a + b),
{
    let s = a + b;
    assert forall|x: int, y: int| 0 <= x < y < s.len() implies (#[trigger] s[x])@ != (#[trigger] s[y])@ by {
        if y < a.len() {
            assert(s[x] == a[x] && s[y] == a[y]);
        } else if x < a.len() {
            assert(s[x] == a[x] && s[y] == b[y - a.len()]);
            assert(!has_user(b, a[x]@));
            assert(b[y - a.len()]@ == s[y]@);
        } else {
            assert(s[x] == b[x - a.len()] && s[y] == b[y - a.len()]);
        }
    }
}

proof fn lemma_apart_concat(a: Seq<Id<UserMarker>>, b: Seq<Id<UserMarker>>, c: Seq<Id<UserMarker>>)
    requires
        users_apart(a, c),
        users_apart(b, c),
    ensures
        users_apart(a + b, c),
{
    let s = a + b;
    assert forall|k: int| 0 <= k < s.len() implies !has_user(c, (#[trigger] s[k])@) by {
        if k < a.len() {
            assert(s[k] == a[k]);
        } else {
            assert(s[k] == b[k - a.len()]);
        }
    }
}

proof fn lemma_apart_concat_right(a: Seq<Id<UserMarker>>, b: Seq<Id<UserMarker>>, c: Seq<Id<UserMarker>>)
    requires
        users_apart(a, b),
        users_apart(a, c),
    ensures
        users_apart(a, b + c),
{
    assert forall|k: int| 0 <= k < a.len() implies !has_user(b + c, (#[trigger] a[k])@) by {
        if has_user(b + c, a[k]@) {
            lemma_has_user_split(b, c, a[k]@);
        }
    }
}

proof fn lemma_within_take_skip(s: Seq<Id<UserMarker>>, t: int)
    requires
        0 <= t <= s.len(),
        distinct_users(s),
    ensures
        users_within(s.take(t), s),
        users_within(s.skip(t), s),
        distinct_users(s.take(t)),
        distinct_users(s.skip(t)),
        users_apart(s.take(t), s.skip(t)),
{
    let a = s.take(t);
    let b = s.skip(t);
    assert forall|k: int| 0 <= k < a.len() implies has_user(s, (#[trigger] a[k])@) by {
        assert(a[k] == s[k]);
    }
    assert forall|k: int| 0 <= k < b.len() implies has_user(s, (#[trigger] b[k])@) by {
        assert(b[k] == s[t + k]);
    }
    assert forall|x: int, y: int| 0 <= x < y < a.len() implies (#[trigger] a[x])@ != (#[trigger] a[y])@ by {
        assert(a[x] == s[x] && a[y] == s[y]);
    }
    assert forall|x: int, y: int| 0 <= x < y < b.len() implies (#[trigger] b[x])@ != (#[trigger] b[y])@ by {
        assert(b[x] == s[t + x] && b[y] == s[t + y]);
    }
    assert forall|k: int| 0 <= k < a.len() implies !has_user(b, (#[trigger] a[k])@) by {
        if has_user(b, a[k]@) {
            let w = choose|w: int| 0 <= w < b.len() && b[w]@ == a[k]@;
            assert(b[w] == s[t + w]);
            assert(a[k] == s[k]);
        }
    }
}

proof fn lemma_first_occurrences_distinct(s: Seq<Id<UserMarker>>)
    ensures
        distinct_users(first_occurrences(s)),
        users_within(first_occurrences(s), s),
    decreases s.len(),
{
    if s.len() > 0 {
        let t = s.drop_last();
        lemma_first_occurrences_distinct(t);
        let d = first_occurrences(t);
        assert forall|k: int| 0 <= k < t.len() implies has_user(s, (#[trigger] t[k])@) by {
            assert(s[k] == t[k]);
        }
        lemma_within_trans(d, t, s);
        if !has_user(d, s.last()@) {
            let e = d.push(s.last());
            assert forall|x: int, y: int| 0 <= x < y < e.len() implies (#[trigger] e[x])@ != (#[trigger] e[y])@ by {
                if y == d.len() {
                    assert(e[x] == d[x]);
                    assert(e[y] == s.last());
                } else {
                    assert(e[x] == d[x] && e[y] == d[y]);
                }
            }
            assert forall|k: int| 0 <= k < e.len() implies has_user(s, (#[trigger] e[k])@) by {
                if k < d.len() {
                    assert(e[k] == d[k]);
                } else {
                    assert(s[s.len() - 1] == s.last());
                }
            }
        }
    }
}

proof fn lemma_filter_unnamed(s: Seq<Id<UserMarker>>, ids: Seq<Id<UserMarker>>)
    ensures
        users_within(s.filter(unnamed_by(ids)), s),
        users_apart(s.filter(unnamed_by(ids)), ids),
        distinct_users(s) ==> distinct_users(s.filter(unnamed_by(ids))),
    decreases s.len(),
{
    reveal(Seq::filter);
    if s.len() > 0 {
        let t = s.drop_last();
        lemma_filter_unnamed(t, ids);
        let f = t.filter(unnamed_by(ids));
        assert forall|k: int| 0 <= k < t.len() implies has_user(s, (#[trigger] t[k])@) by {
            assert(s[k] == t[k]);
        }
        lemma_within_trans(f, t, s);
        if distinct_users(s) {
            assert forall|x: int, y: int| 0 <= x < y < t.len() implies (#[trigger] t[x])@ != (#[trigger] t[y])@ by {
                assert(t[x] == s[x] && t[y] == s[y]);
            }
        }
        if unnamed_by(ids)(s.last()) {
            let e = f.push(s.last());
            assert(s.filter(unnamed_by(ids)) == e);
            assert forall|k: int| 0 <= k < e.len() implies has_user(s, (#[trigger] e[k])@) by {
                if k < f.len() {
                    assert(e[k] == f[k]);
                } else {
                    assert(s[s.len() - 1] == s.last());
                }
            }
            assert forall|k: int| 0 <= k < e.len() implies !has_user(ids, (#[trigger] e[k])@) by {
                if k < f.len() {
                    assert(e[k] == f[k]);
                }
            }
            if distinct_users(s) {
                assert forall|x: int, y: int| 0 <= x < y < e.len() implies (#[trigger] e[x])@ != (#[trigger] e[y])@ by {
                    if y == f.len() {
                        assert(e[x] == f[x]);
                        let w = choose|w: int| 0 <= w < t.len() && t[w]@ == f[x]@;
                        assert(t[w] == s[w]);
                        assert(e[y] == s[s.len() - 1]);
                    } else {
                        assert(e[x] == f[x] && e[y] == f[y]);
                    }
                }
            }
        }
    }
}

/// What `unnamed_from` leaves is among `r`, once each where `r` names
/// each once, and apart from every compatible request from `j` on.
proof fn lemma_unnamed_from(p: Seq<PendingGuildMemberRequest>, j: int, r: Seq<Id<UserMarker>>, g: u64, presences: bool)
    requires
        0 <= j,
    ensures
        users_within(unnamed_from(p, j, r, g, presences), r),
        distinct_users(r) ==> distinct_users(unnamed_from(p, j, r, g, presences)),
        forall|i: int| j <= i < p.len() && compatible(p[i], g, presences) ==> users_apart(unnamed_from(p, j, r, g, presences), users_of(#[trigger] p[i])),
    decreases p.len() - j,
{
    let u = unnamed_from(p, j, r, g, presences);
    if j >= p.len() {
        assert forall|k: int| 0 <= k < r.len() implies has_user(r, (#[trigger] r[k])@) by {}
    } else if compatible(p[j], g, presences) {
        let f = r.filter(unnamed_by(users_of(p[j])));
        lemma_filter_unnamed(r, users_of(p[j]));
        lemma_unnamed_from(p, j + 1, f, g, presences);
        lemma_within_trans(u, f, r);
        lemma_apart_within(u, f, users_of(p[j]));
    } else {
        lemma_unnamed_from(p, j + 1, r, g, presences);
    }
}

/// Each entry of what drops searches is an entry of the queue.
proof fn lemma_drop_searches_from(p: Seq<PendingGuildMemberRequest>, k: nat)
    ensures
        forall|j: int| 0 <= j < drop_searches(p, k).len() ==> exists|i: int| 0 <= i < p.len() && #[trigger] drop_searches(p, k)[j] == p[i],
    decreases p.len(),
{
    let d = drop_searches(p, k);
    if p.len() == 0 || k == 0 {
        assert forall|j: int| 0 <= j < d.len() implies exists|i: int| 0 <= i < p.len() && #[trigger] d[j] == p[i] by {
            assert(d[j] == p[j]);
        }
    } else {
        let t = p.drop_first();
        let kk: nat = if p[0].request.searching() { (k - 1) as nat } else { k };
        lemma_drop_searches_from(t, kk);
        let rest = drop_searches(t, kk);
        assert forall|j: int| 0 <= j < d.len() implies exists|i: int| 0 <= i < p.len() && #[trigger] d[j] == p[i] by {
            if p[0].request.searching() {
                let i = choose|i: int| 0 <= i < t.len() && rest[j] == t[i];
                assert(d[j] == p[i + 1]);
            } else if j == 0 {
                assert(d[0] == p[0]);
            } else {
                assert(d[j] == rest[j - 1]);
                let i = choose|i: int| 0 <= i < t.len() && rest[j - 1] == t[i];
                assert(d[j] == p[i + 1]);
            }
        }
    }
}

proof fn lemma_drop_searches_named_once(p: Seq<PendingGuildMemberRequest>, k: nat, g: u64, presences: bool)
    requires
        named_once(p, g, presences),
    ensures
        named_once(drop_searches(p, k), g, presences),
    decreases p.len(),
{
    let d = drop_searches(p, k);
    lemma_drop_searches_from(p, k);
    if p.len() == 0 || k == 0 {
    } else {
        let t = p.drop_first();
        assert(named_once(t, g, presences)) by {
            assert forall|j: int| 0 <= j < t.len() && compatible(t[j], g, presences) implies distinct_users(users_of(#[trigger] t[j])) by {
                assert(t[j] == p[j + 1]);
            }
            assert forall|i: int, j: int|
                0 <= i < j < t.len() && compatible(t[i], g, presences) && compatible(t[j], g, presences) implies users_apart(
                users_of(#[trigger] t[i]),
                users_of(#[trigger] t[j]),
            ) by {
                assert(t[i] == p[i + 1] && t[j] == p[j + 1]);
            }
        }
        let kk: nat = if p[0].request.searching() { (k - 1) as nat } else { k };
        lemma_drop_searches_named_once(t, kk, g, presences);
        lemma_drop_searches_from(t, kk);
        let rest = drop_searches(t, kk);
        if !p[0].request.searching() {
            assert forall|j: int| 0 <= j < d.len() && compatible(d[j], g, presences) implies distinct_users(users_of(#[trigger] d[j])) by {
                let i = choose|i: int| 0 <= i < p.len() && d[j] == p[i];
            }
            assert forall|i: int, j: int|
                0 <= i < j < d.len() && compatible(d[i], g, presences) && compatible(d[j], g, presences) implies users_apart(
                users_of(#[trigger] d[i]),
                users_of(#[trigger] d[j]),
            ) by {
                if i == 0 {
                    assert(d[0] == p[0]);
                    assert(d[j] == rest[j - 1]);
                    let w = choose|w: int| 0 <= w < t.len() && rest[j - 1] == t[w];
                    assert(t[w] == p[w + 1]);
                } else {
                    assert(d[i] == rest[i - 1] && d[j] == rest[j - 1]);
                }
            }
        }
    }
}

/// Filling hands out users of `r`, each once, no user to two requests, and
/// leaves over the others.
proof fn lemma_fill_plan_apart(p: Seq<PendingGuildMemberRequest>, i: int, r: Seq<Id<UserMarker>>, g: u64, presences: bool)
    requires
        0 <= i <= p.len(),
        distinct_users(r),
    ensures
        ({
            let plan = fill_plan(p, i, r, g, presences);
            &&& forall|k: int| 0 <= k < plan.0.len() ==> distinct_users(#[trigger] plan.0[k]) && users_within(plan.0[k], r)
            &&& forall|k1: int, k2: int| 0 <= k1 < k2 < plan.0.len() ==> users_apart(#[trigger] plan.0[k1], #[trigger] plan.0[k2])
            &&& distinct_users(plan.1)
            &&& users_within(plan.1, r)
            &&& forall|k: int| 0 <= k < plan.0.len() ==> users_apart(#[trigger] plan.0[k], plan.1)
        }),
    decreases p.len() - i,
{
    let plan = fill_plan(p, i, r, g, presences);
    lemma_fill_plan_len(p, i, r, g, presences);
    if i == p.len() {
        assert forall|k: int| 0 <= k < r.len() implies has_user(r, (#[trigger] r[k])@) by {}
    } else {
        let (head, s): (Seq<Id<UserMarker>>, Seq<Id<UserMarker>>) = if compatible(p[i], g, presences) {
            let fresh = unnamed_users(p[i], r);
            let t = fill_count(p[i], r);
            lemma_filter_unnamed(r, users_of(p[i]));
            lemma_within_take_skip(fresh, t);
            lemma_within_trans(fresh.take(t), fresh, r);
            lemma_within_trans(fresh.skip(t), fresh, r);
            (fresh.take(t), fresh.skip(t))
        } else {
            assert forall|k: int| 0 <= k < r.len() implies has_user(r, (#[trigger] r[k])@) by {}
            (Seq::<Id<UserMarker>>::empty(), r)
        };
        assert(users_within(head, r) && users_within(s, r) && distinct_users(head) && distinct_users(s) && users_apart(head, s));
        lemma_fill_plan_apart(p, i + 1, s, g, presences);
        let rest = fill_plan(p, i + 1, s, g, presences);
        assert(plan.0 == seq![head] + rest.0);
        assert(plan.1 == rest.1);
        assert forall|k: int| 0 <= k < plan.0.len() implies distinct_users(#[trigger] plan.0[k]) && users_within(plan.0[k], r) by {
            if k > 0 {
                assert(plan.0[k] == rest.0[k - 1]);
                lemma_within_trans(rest.0[k - 1], s, r);
            }
        }
        assert forall|k1: int, k2: int| 0 <= k1 < k2 < plan.0.len() implies users_apart(#[trigger] plan.0[k1], #[trigger] plan.0[k2]) by {
            assert(plan.0[k2] == rest.0[k2 - 1]);
            if k1 == 0 {
                lemma_apart_symmetric(head, s);
                lemma_apart_within(rest.0[k2 - 1], s, head);
                lemma_apart_symmetric(rest.0[k2 - 1], head);
            } else {
                assert(plan.0[k1] == rest.0[k1 - 1]);
            }
        }
        lemma_within_trans(rest.1, s, r);
        assert forall|k: int| 0 <= k < plan.0.len() implies users_apart(#[trigger] plan.0[k], plan.1) by {
            if k == 0 {
                lemma_apart_symmetric(head, s);
                lemma_apart_within(rest.1, s, head);
                lemma_apart_symmetric(rest.1, head);
            } else {
                assert(plan.0[k] == rest.0[k - 1]);
            }
        }
    }
}

/// The chunks of `r` hold users of `r`, each once, none in two chunks.
proof fn lemma_chunks_apart(r: Seq<Id<UserMarker>>)
    requires
        distinct_users(r),
    ensures
        forall|k: int| 0 <= k < chunks_of(r).len() ==> distinct_users(#[trigger] chunks_of(r)[k]) && users_within(chunks_of(r)[k], r),
        forall|k1: int, k2: int| 0 <= k1 < k2 < chunks_of(r).len() ==> users_apart(#[trigger] chunks_of(r)[k1], #[trigger] chunks_of(r)[k2]),
    decreases r.len(),
{
    let c = chunks_of(r);
    if r.len() == 0 {
    } else if r.len() <= MAX_USER_IDS_PER_REQUEST {
        assert forall|k: int| 0 <= k < r.len() implies has_user(r, (#[trigger] r[k])@) by {}
    } else {
        let t = MAX_USER_IDS_PER_REQUEST as int;
        let head = r.take(t);
        let s = r.skip(t);
        lemma_within_take_skip(r, t);
        lemma_chunks_apart(s);
        let rest = chunks_of(s);
        assert forall|k: int| 0 <= k < c.len() implies distinct_users(#[trigger] c[k]) && users_within(c[k], r) by {
            if k > 0 {
                assert(c[k] == rest[k - 1]);
                lemma_within_trans(rest[k - 1], s, r);
            }
        }
        assert forall|k1: int, k2: int| 0 <= k1 < k2 < c.len() implies users_apart(#[trigger] c[k1], #[trigger] c[k2]) by {
            assert(c[k2] == rest[k2 - 1]);
            if k1 == 0 {
                lemma_apart_symmetric(head, s);
                lemma_apart_within(rest[k2 - 1], s, head);
                lemma_apart_symmetric(rest[k2 - 1], head);
            } else {
                assert(c[k1] == rest[k1 - 1]);
            }
        }
    }
}


/// Queueing requests for given users keeps each user named at most once
/// among the guild's requests with those presences: the users are taken
/// once each, those already named are left out, and the rest are shared
/// out without repeats.
pub proof fn law_by_ids_requests_name_each_user_once(
    before: GuildMemberRequestScheduler,
    after: GuildMemberRequestScheduler,
    guild_id: Id<GuildMarker>,
    user_ids: Seq<Id<UserMarker>>,
    presences: bool,
    now: u64,
)
    requires
        GuildMemberRequestScheduler::by_ids_applied(before, after, guild_id, user_ids, presences, now),
        named_once(before.pending@, guild_id@, presences),
    ensures
        named_once(after.pending@, guild_id@, presences),
{
    let g = guild_id@;
    let p0 = before.pending@;
    let r0 = first_occurrences(user_ids);
    let r1 = unnamed_from(p0, 0, r0, g, presences);
    let room = saturated(room_from(p0, 0, g, presences));
    let k = by_ids_overflow(p0.len() as int, new_request_count(r1.len() as int, room) as int);
    let p1 = drop_searches(p0, k);
    let plan = fill_plan(p1, 0, r1, g, presences);
    let chunks = chunks_of(plan.1);
    let n = p1.len();
    let q = after.pending@;
    lemma_first_occurrences_distinct(user_ids);
    lemma_unnamed_from(p0, 0, r0, g, presences);
    lemma_drop_searches_named_once(p0, k, g, presences);
    lemma_drop_searches_from(p0, k);
    lemma_fill_plan_len(p1, 0, r1, g, presences);
    lemma_fill_plan_apart(p1, 0, r1, g, presences);
    lemma_chunks_apart(plan.1);
    // The users handed out are apart from every compatible request's own.
    assert forall|j: int| 0 <= j < n && compatible(p1[j], g, presences) implies users_apart(r1, #[trigger] users_of(p1[j])) by {
        let i = choose|i: int| 0 <= i < p0.len() && p1[j] == p0[i];
    }
    assert forall|c: int| 0 <= c < chunks.len() implies users_within(#[trigger] chunks[c], r1) by {
        lemma_within_trans(chunks[c], plan.1, r1);
    }
    // Each request names its users once.
    assert forall|j: int| 0 <= j < q.len() && compatible(q[j], g, presences) implies distinct_users(users_of(#[trigger] q[j])) by {
        if j < n {
            assert(extended_by(p1[j], q[j], plan.0[j], g, presences));
            if compatible(p1[j], g, presences) {
                lemma_apart_within(plan.0[j], r1, users_of(p1[j]));
                lemma_apart_symmetric(plan.0[j], users_of(p1[j]));
                lemma_distinct_concat(users_of(p1[j]), plan.0[j]);
            }
        } else {
            let c = j - n;
            assert(q[n + c] == q[j]);
        }
    }
    // No two requests name the same user.
    assert forall|i: int, j: int|
        0 <= i < j < q.len() && compatible(q[i], g, presences) && compatible(q[j], g, presences) implies users_apart(
        users_of(#[trigger] q[i]),
        users_of(#[trigger] q[j]),
    ) by {
        if j < n {
            assert(extended_by(p1[i], q[i], plan.0[i], g, presences));
            assert(extended_by(p1[j], q[j], plan.0[j], g, presences));
            assert(compatible(p1[i], g, presences) && compatible(p1[j], g, presences));
            let oi = users_of(p1[i]);
            let oj = users_of(p1[j]);
            let ai = plan.0[i];
            let aj = plan.0[j];
            lemma_apart_within(aj, r1, oi);
            lemma_apart_symmetric(aj, oi);
            lemma_apart_concat_right(oi, oj, aj);
            lemma_apart_within(ai, r1, oj);
            lemma_apart_concat_right(ai, oj, aj);
            lemma_apart_concat(oi, ai, oj + aj);
        } else if i < n {
            let c = j - n;
            assert(q[n + c] == q[j]);
            let ch = chunks[c];
            assert(extended_by(p1[i], q[i], plan.0[i], g, presences));
            let ai = plan.0[i];
            assert(compatible(p1[i], g, presences));
            // The chunk is apart from the request's own users and additions.
            lemma_apart_within(ch, r1, users_of(p1[i]));
            lemma_apart_symmetric(ai, plan.1);
            lemma_apart_within(ch, plan.1, ai);
            lemma_apart_symmetric(ch, users_of(p1[i]));
            lemma_apart_symmetric(ch, ai);
            lemma_apart_concat(users_of(p1[i]), ai, ch);
        } else {
            let c1 = i - n;
            let c2 = j - n;
            assert(q[n + c1] == q[i]);
            assert(q[n + c2] == q[j]);
        }
    }
}

} // verus!
