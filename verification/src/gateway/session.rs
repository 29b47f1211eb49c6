//! The gateway bookkeeping that survives reconnects: what a RESUME needs,
//! and the marker that stops a malformed replay from looping forever.
use vstd::prelude::*;

use crate::text::{concat2, owned, same_text};

verus! {

/// What a URL holds that the resume check reads: scheme, host, user name,
/// password, fragment and the decoded query pairs.
pub type UrlModel = (Seq<char>, Option<Seq<char>>, Seq<char>, Option<Seq<char>>, Option<Seq<char>>, Seq<(Seq<char>, Seq<char>)>);

/// The parts of a parsed URL the resume check reads.
pub struct UrlParts {
    pub scheme: String,
    pub host: Option<String>,
    pub username: String,
    pub password: Option<String>,
    pub fragment: Option<String>,
    pub query: Vec<(String, String)>,
}

pub open spec fn opt_view(o: Option<String>) -> Option<Seq<char>> {
    match o {
        Some(s) => Some(s@),
        None => None,
    }
}

pub open spec fn pairs_view(p: Seq<(String, String)>) -> Seq<(Seq<char>, Seq<char>)> {
    Seq::new(p.len(), |i: int| (p[i].0@, p[i].1@))
}

impl UrlParts {
    pub open spec fn model(&self) -> UrlModel {
        (self.scheme@, opt_view(self.host), self.username@, opt_view(self.password), opt_view(self.fragment), pairs_view(self.query@))
    }
}

/// What `url::Url::parse` makes of a text: the parts above, or the text of
/// its error.
pub uninterp spec fn url_parse_result(text: Seq<char>) -> Result<UrlModel, Seq<char>>;

/// The text of the URL `text` parses to once its query is replaced by the
/// given pairs, form-encoded in order.
pub uninterp spec fn url_with_query_text(text: Seq<char>, pairs: Seq<(Seq<char>, Seq<char>)>) -> Seq<char>;

/// Parses with `reqwest::Url::parse` (the `url` crate's `Url::parse`) and
/// reads the scheme, host, user name, password, fragment and decoded query
/// pairs; on failure, the error's text. The contract claims only that the
/// outcome is a function of the text, named `url_parse_result`.
#[verifier::external_body]
fn parse_url_parts(text: &str) -> (r: Result<UrlParts, String>)
    ensures
        match r {
            Ok(p) => url_parse_result(text@) == Ok::<UrlModel, Seq<char>>(p.model()),
            Err(e) => url_parse_result(text@) == Err::<UrlModel, Seq<char>>(e@),
        },
{
    match reqwest::Url::parse(text) {
        Ok(url) => Ok(UrlParts {
            scheme: url.scheme().to_owned(),
            host: url.host_str().map(str::to_owned),
            username: url.username().to_owned(),
            password: url.password().map(str::to_owned),
            fragment: url.fragment().map(str::to_owned),
            query: url.query_pairs().map(|(name, value)| (name.into_owned(), value.into_owned())).collect(),
        }),
        Err(error) => Err(error.to_string()),
    }
}

/// The most characters of URL and query pairs `url_with_query` is given.
/// The `url` crate keeps positions in its serialisation as `u32` and panics
/// (`to_u32(..).unwrap()`) once the serialisation outgrows them; a
/// character is at most 12 bytes there (four of UTF-8, each percent-encoded
/// as three), so this keeps every serialisation under 4 GiB.
pub const URL_CHARS_LIMIT: usize = 357_913_941;

/// The characters a list of query pairs adds, one more per pair for its
/// separators.
pub open spec fn pairs_size(p: Seq<(Seq<char>, Seq<char>)>) -> nat
    decreases p.len(),
{
    if p.len() == 0 {
        0
    } else {
        pairs_size(p.drop_last()) + p.last().0.len() + p.last().1.len() + 1
    }
}

/// Parses `text` with `reqwest::Url::parse`, clears its query with
/// `set_query(None)`, appends the pairs with `query_pairs_mut().extend_pairs`
/// and serialises it. The contract claims only that the result is a
/// function of the text and the pairs, named `url_with_query_text`; the
/// `requires` leaves out what would not parse, on which the call panics, and
/// what would outgrow the crate's `u32` positions, on which it panics too.
#[verifier::external_body]
fn url_with_query(text: &str, pairs: &Vec<(String, String)>) -> (r: String)
    requires
        url_parse_result(text@) is Ok,
        text@.len() + pairs_size(pairs_view(pairs@)) <= URL_CHARS_LIMIT,
    ensures
        r@ == url_with_query_text(text@, pairs_view(pairs@)),
{
    let mut url = reqwest::Url::parse(text).expect("the text was checked to parse");
    url.set_query(None);
    url.query_pairs_mut().extend_pairs(pairs.iter().map(|(name, value)| (name.as_str(), value.as_str())));
    url.to_string()
}

/// The query parameters this client sets itself on a gateway URL.
pub open spec fn is_protocol_param(name: Seq<char>) -> bool {
    name == "v"@ || name == "encoding"@ || name == "compress"@
}

/// The served query pairs that are kept: all but the protocol ones.
pub open spec fn retained_pairs(q: Seq<(Seq<char>, Seq<char>)>) -> Seq<(Seq<char>, Seq<char>)>
    decreases q.len(),
{
    if q.len() == 0 {
        Seq::empty()
    } else {
        let rest = retained_pairs(q.drop_last());
        if is_protocol_param(q.last().0) { rest } else { rest.push(q.last()) }
    }
}

pub open spec fn protocol_pairs() -> Seq<(Seq<char>, Seq<char>)> {
    seq![("v"@, "9"@), ("encoding"@, "json"@), ("compress"@, "zlib-stream"@)]
}

/// The URL a RESUME connects to: Discord's `resume_gateway_url`, refused
/// unless it is `wss` with a host and without credentials or a fragment,
/// and refused when it is too long for the `url` crate to rebuild,
/// its query reduced to what Discord served beyond the protocol
/// parameters, and this client's protocol parameters appended.
pub open spec fn normalized_resume(text: Seq<char>) -> Result<Seq<char>, Seq<char>> {
    match url_parse_result(text) {
        Err(e) => Err("invalid Gateway resume URL: "@ + e),
        Ok(m) => if m.0 != "wss"@ {
            Err("invalid Gateway resume URL: scheme must be wss"@)
        } else if m.1 is None {
            Err("invalid Gateway resume URL: host is missing"@)
        } else if m.2.len() > 0 || m.3 is Some {
            Err("invalid Gateway resume URL: credentials are not allowed"@)
        } else if m.4 is Some {
            Err("invalid Gateway resume URL: fragments are not allowed"@)
        } else if text.len() + pairs_size(retained_pairs(m.5) + protocol_pairs()) > URL_CHARS_LIMIT {
            Err("invalid Gateway resume URL: too long"@)
        } else {
            Ok(url_with_query_text(text, retained_pairs(m.5) + protocol_pairs()))
        },
    }
}

/// Every prefix of a list of pairs adds no more than the whole list.
proof fn lemma_pairs_size_prefix(p: Seq<(Seq<char>, Seq<char>)>, j: int)
    requires
        0 <= j <= p.len(),
    ensures
        pairs_size(p.take(j)) <= pairs_size(p),
    decreases p.len() - j,
{
    if j < p.len() {
        lemma_pairs_size_prefix(p, j + 1);
        assert(p.take(j + 1).drop_last() =~= p.take(j));
    } else {
        assert(p.take(j) =~= p);
    }
}

/// Whether a URL and the pairs for its query are within `URL_CHARS_LIMIT`.
fn fits_url_limit(text: &str, pairs: &Vec<(String, String)>) -> (b: bool)
    ensures
        b == (text@.len() + pairs_size(pairs_view(pairs@)) <= URL_CHARS_LIMIT),
{
    let ghost p = pairs_view(pairs@);
    let mut total: usize = text.unicode_len();
    if total > URL_CHARS_LIMIT {
        return false;
    }
    let n = pairs.len();
    let mut i: usize = 0;
    assert(p.take(0) =~= Seq::<(Seq<char>, Seq<char>)>::empty());
    while i < n
        invariant
            n == pairs@.len(),
            p == pairs_view(pairs@),
            i <= n,
            total == text@.len() + pairs_size(p.take(i as int)),
            total <= URL_CHARS_LIMIT,
        decreases n - i,
    {
        proof {
            assert(p.take(i + 1).drop_last() =~= p.take(i as int));
            assert(p.take(i + 1).last() == (pairs@[i as int].0@, pairs@[i as int].1@));
            lemma_pairs_size_prefix(p, i + 1);
        }
        let a = pairs[i].0.unicode_len();
        if a >= URL_CHARS_LIMIT - total {
            return false;
        }
        let b = pairs[i].1.unicode_len();
        if b >= URL_CHARS_LIMIT - total - a {
            return false;
        }
        total = total + a + b + 1;
        i = i + 1;
    }
    assert(p.take(n as int) =~= p);
    true
}

fn pair(a: &str, b: &str) -> (p: (String, String))
    ensures
        p.0@ == a@,
        p.1@ == b@,
{
    (owned(a), owned(b))
}

pub fn normalized_resume_url(resume_url: &str) -> (r: Result<String, String>)
    ensures
        match r {
            Ok(u) => normalized_resume(resume_url@) == Ok::<Seq<char>, Seq<char>>(u@),
            Err(e) => normalized_resume(resume_url@) == Err::<Seq<char>, Seq<char>>(e@),
        },
{
    let parts = match parse_url_parts(resume_url) {
        Ok(p) => p,
        Err(error) => return Err(concat2("invalid Gateway resume URL: ", error.as_str())),
    };
    if !same_text(parts.scheme.as_str(), "wss") {
        return Err(owned("invalid Gateway resume URL: scheme must be wss"));
    }
    if parts.host.is_none() {
        return Err(owned("invalid Gateway resume URL: host is missing"));
    }
    if parts.username.unicode_len() > 0 || parts.password.is_some() {
        return Err(owned("invalid Gateway resume URL: credentials are not allowed"));
    }
    if parts.fragment.is_some() {
        return Err(owned("invalid Gateway resume URL: fragments are not allowed"));
    }
    let ghost q = pairs_view(parts.query@);
    let mut kept: Vec<(String, String)> = Vec::new();
    let n = parts.query.len();
    let mut i: usize = 0;
    proof {
        assert(q.take(0) =~= Seq::<(Seq<char>, Seq<char>)>::empty());
        assert(pairs_view(kept@) =~= Seq::<(Seq<char>, Seq<char>)>::empty());
    }
    while i < n
        invariant
            n == parts.query@.len(),
            q == pairs_view(parts.query@),
            i <= n,
            pairs_view(kept@) == retained_pairs(q.take(i as int)),
        decreases n - i,
    {
        let name = parts.query[i].0.as_str();
        let protocol = same_text(name, "v") || same_text(name, "encoding") || same_text(name, "compress");
        proof {
            assert(q.take(i + 1).drop_last() =~= q.take(i as int));
            assert(q.take(i + 1).last() == q[i as int]);
        }
        if !protocol {
            let ghost before = kept@;
            kept.push(pair(name, parts.query[i].1.as_str()));
            proof {
                assert(pairs_view(kept@) =~= pairs_view(before).push(q[i as int]));
            }
        }
        i = i + 1;
    }
    let ghost retained = pairs_view(kept@);
    kept.push(pair("v", "9"));
    kept.push(pair("encoding", "json"));
    kept.push(pair("compress", "zlib-stream"));
    proof {
        assert(q.take(n as int) =~= q);
        assert(pairs_view(kept@) =~= retained + protocol_pairs());
    }
    if !fits_url_limit(resume_url, &kept) {
        return Err(owned("invalid Gateway resume URL: too long"));
    }
    Ok(url_with_query(resume_url, &kept))
}

/// Whether a malformed frame has already cost a RESUME, and after which
/// sequence.
#[derive(Clone, Copy, Debug, PartialEq, Eq, Structural)]
pub enum MalformedFrameRecovery {
    NotAttempted,
    ResumeAttempted { after_sequence: Option<u64> },
}

/// What a connection opens with.
#[derive(Clone, Debug, PartialEq, Eq)]
pub enum GatewayHandshake {
    Identify,
    Resume { session_id: String, sequence: u64 },
}

/// Where to connect, how to open, and what to report about a resume that
/// could not be used.
#[derive(Clone, Debug, PartialEq, Eq)]
pub struct GatewayConnectionPlan {
    pub url: String,
    pub handshake: GatewayHandshake,
    pub recovery_warning: Option<String>,
}

/// What a frame leaves the connection to do.
#[derive(Clone, Copy, Debug, PartialEq, Eq, Structural)]
pub enum FrameOutcome {
    Continue,
    Resume,
    Reidentify,
}

/// Gateway bookkeeping that survives reconnects.
#[derive(Debug)]
pub struct SessionState {
    pub session_id: Option<String>,
    pub resume_url: Option<String>,
    pub last_sequence: Option<u64>,
    pub has_received_ready: bool,
    /// Whether the current connection reached READY or RESUMED.
    pub established: bool,
    pub malformed_frame_recovery: MalformedFrameRecovery,
}

impl Default for SessionState {
    fn default() -> (s: Self)
        ensures
            s.session_id is None,
            s.resume_url is None,
            s.last_sequence is None,
            !s.has_received_ready,
            !s.established,
            s.malformed_frame_recovery == MalformedFrameRecovery::NotAttempted,
    {
        SessionState {
            session_id: None,
            resume_url: None,
            last_sequence: None,
            has_received_ready: false,
            established: false,
            malformed_frame_recovery: MalformedFrameRecovery::NotAttempted,
        }
    }
}

pub const INCOMPLETE_RESUME_WARNING: &'static str = "Gateway resume state is incomplete; starting a new session";

impl SessionState {
    pub open spec fn resumable(&self) -> bool {
        self.session_id is Some && self.resume_url is Some && self.last_sequence is Some
    }

    /// `after` is `before` with the resume cursor and recovery marker
    /// dropped, and nothing else changed.
    pub open spec fn cleared_from(after: SessionState, before: SessionState) -> bool {
        &&& after.session_id is None
        &&& after.resume_url is None
        &&& after.last_sequence is None
        &&& after.malformed_frame_recovery == MalformedFrameRecovery::NotAttempted
        &&& after.has_received_ready == before.has_received_ready
        &&& after.established == before.established
    }

    pub open spec fn same_as(after: SessionState, before: SessionState) -> bool {
        &&& opt_view(after.session_id) == opt_view(before.session_id)
        &&& opt_view(after.resume_url) == opt_view(before.resume_url)
        &&& after.last_sequence == before.last_sequence
        &&& after.malformed_frame_recovery == before.malformed_frame_recovery
        &&& after.has_received_ready == before.has_received_ready
        &&& after.established == before.established
    }

    /// Forget the resume cursor.
    pub fn clear(&mut self)
        ensures
            SessionState::cleared_from(*final(self), *old(self)),
    {
        self.session_id = None;
        self.resume_url = None;
        self.last_sequence = None;
        self.malformed_frame_recovery = MalformedFrameRecovery::NotAttempted;
    }

    /// A RESUME needs the session, the URL to resume at and a sequence.
    pub fn can_resume(&self) -> (b: bool)
        ensures
            b == self.resumable(),
    {
        self.session_id.is_some() && self.resume_url.is_some() && self.last_sequence.is_some()
    }

    /// How the next connection opens. With a complete cursor and a usable
    /// resume URL, a RESUME there; otherwise a fresh IDENTIFY at
    /// `gateway_url`, the cursor cleared, and a warning when some of it was
    /// there but could not be used.
    pub fn next_connection(&mut self, gateway_url: &str) -> (plan: GatewayConnectionPlan)
        ensures
            !old(self).resumable() ==> {
                &&& SessionState::cleared_from(*final(self), *old(self))
                &&& plan.url@ == gateway_url@
                &&& plan.handshake == GatewayHandshake::Identify
                &&& opt_view(plan.recovery_warning) == if old(self).session_id is Some || old(self).resume_url is Some || old(self).last_sequence is Some {
                    Some(INCOMPLETE_RESUME_WARNING@)
                } else {
                    None
                }
            },
            old(self).resumable() ==> match normalized_resume(old(self).resume_url.unwrap()@) {
                Ok(u) => {
                    &&& SessionState::same_as(*final(self), *old(self))
                    &&& plan.url@ == u
                    &&& plan.handshake matches GatewayHandshake::Resume { session_id, sequence }
                    &&& session_id@ == old(self).session_id.unwrap()@
                    &&& sequence == old(self).last_sequence.unwrap()
                    &&& plan.recovery_warning is None
                },
                Err(e) => {
                    &&& SessionState::cleared_from(*final(self), *old(self))
                    &&& plan.url@ == gateway_url@
                    &&& plan.handshake == GatewayHandshake::Identify
                    &&& opt_view(plan.recovery_warning) == Some(e)
                },
            },
    {
        if !self.can_resume() {
            let partial = self.session_id.is_some() || self.resume_url.is_some() || self.last_sequence.is_some();
            self.clear();
            return GatewayConnectionPlan {
                url: owned(gateway_url),
                handshake: GatewayHandshake::Identify,
                recovery_warning: if partial { Some(owned(INCOMPLETE_RESUME_WARNING)) } else { None },
            };
        }
        let normalized = match &self.resume_url {
            Some(u) => normalized_resume_url(u.as_str()),
            None => Err(String::new()),
        };
        match normalized {
            Ok(url) => {
                let session_id = match &self.session_id {
                    Some(s) => owned(s.as_str()),
                    None => String::new(),
                };
                let sequence = match self.last_sequence {
                    Some(s) => s,
                    None => 0,
                };
                GatewayConnectionPlan {
                    url,
                    handshake: GatewayHandshake::Resume { session_id, sequence },
                    recovery_warning: None,
                }
            },
            Err(error) => {
                self.clear();
                GatewayConnectionPlan {
                    url: owned(gateway_url),
                    handshake: GatewayHandshake::Identify,
                    recovery_warning: Some(error),
                }
            },
        }
    }

    /// What a frame that does not parse leads to. One RESUME may repair
    /// transport corruption; a second failure at the same confirmed
    /// sequence abandons the replay and re-identifies, as does a session
    /// that cannot resume at all.
    pub open spec fn malformed_outcome_of(&self) -> FrameOutcome {
        if !self.resumable() {
            FrameOutcome::Reidentify
        } else if self.malformed_frame_recovery == (MalformedFrameRecovery::ResumeAttempted {
            after_sequence: self.last_sequence,
        }) {
            FrameOutcome::Reidentify
        } else {
            FrameOutcome::Resume
        }
    }

    /// The recovery marker after a malformed frame: a RESUME spent on the
    /// current sequence is remembered.
    pub open spec fn recovery_after_malformed(&self) -> MalformedFrameRecovery {
        if self.malformed_outcome_of() == FrameOutcome::Resume {
            MalformedFrameRecovery::ResumeAttempted { after_sequence: self.last_sequence }
        } else {
            self.malformed_frame_recovery
        }
    }

    pub fn malformed_frame_outcome(&mut self) -> (o: FrameOutcome)
        ensures
            o == old(self).malformed_outcome_of(),
            final(self).malformed_frame_recovery == old(self).recovery_after_malformed(),
            opt_view(final(self).session_id) == opt_view(old(self).session_id),
            opt_view(final(self).resume_url) == opt_view(old(self).resume_url),
            final(self).last_sequence == old(self).last_sequence,
            final(self).has_received_ready == old(self).has_received_ready,
            final(self).established == old(self).established,
    {
        if !self.can_resume() {
            return FrameOutcome::Reidentify;
        }
        let after_sequence = self.last_sequence;
        let marker = MalformedFrameRecovery::ResumeAttempted { after_sequence };
        if self.malformed_frame_recovery == marker {
            return FrameOutcome::Reidentify;
        }
        self.malformed_frame_recovery = marker;
        FrameOutcome::Resume
    }

    /// A dispatch's sequence: it moves the cursor, and a frame that parsed
    /// means the stream is sound again.
    pub fn record_sequence(&mut self, sequence: u64)
        ensures
            final(self).last_sequence == Some(sequence),
            final(self).malformed_frame_recovery == MalformedFrameRecovery::NotAttempted,
            opt_view(final(self).session_id) == opt_view(old(self).session_id),
            opt_view(final(self).resume_url) == opt_view(old(self).resume_url),
            final(self).has_received_ready == old(self).has_received_ready,
            final(self).established == old(self).established,
    {
        self.last_sequence = Some(sequence);
        self.malformed_frame_recovery = MalformedFrameRecovery::NotAttempted;
    }

    /// A RESUME whose connection or handshake failed is not chosen again:
    /// the cursor is cleared so the next connection identifies. Whether it
    /// was cleared is returned.
    pub fn abandon_failed_resume(&mut self, handshake: &GatewayHandshake) -> (cleared: bool)
        ensures
            cleared == (handshake is Resume),
            cleared ==> SessionState::cleared_from(*final(self), *old(self)),
            !cleared ==> SessionState::same_as(*final(self), *old(self)),
    {
        match handshake {
            GatewayHandshake::Resume { .. } => {
                self.clear();
                true
            },
            GatewayHandshake::Identify => false,
        }
    }
}

/// Two malformed frames in a row at one confirmed sequence: the first may
/// resume, the second always re-identifies.
pub proof fn law_second_malformed_frame_reidentifies(before: SessionState, after: SessionState)
    requires
        opt_view(after.session_id) == opt_view(before.session_id),
        opt_view(after.resume_url) == opt_view(before.resume_url),
        after.last_sequence == before.last_sequence,
        after.malformed_frame_recovery == before.recovery_after_malformed(),
    ensures
        after.malformed_outcome_of() == FrameOutcome::Reidentify,
{
}

/// A dispatch received after a resume was spent restores the right to one:
/// once a sequence is recorded, a resumable session's next malformed frame
/// resumes.
pub proof fn law_recorded_sequence_allows_a_resume(s: SessionState)
    requires
        s.resumable(),
        s.malformed_frame_recovery == MalformedFrameRecovery::NotAttempted,
    ensures
        s.malformed_outcome_of() == FrameOutcome::Resume,
{
}

/// After a plan that identifies the session holds no resume cursor, so
/// nothing can resume into the session that was given up.
pub proof fn law_identify_plan_leaves_nothing_to_resume(before: SessionState, after: SessionState)
    requires
        SessionState::cleared_from(after, before),
    ensures
        !after.resumable(),
        after.malformed_outcome_of() == FrameOutcome::Reidentify,
{
}

} // verus!
