//! What each frame Discord sends, and each way a connection ends, leads to.
use vstd::prelude::*;

use crate::gateway::payloads::{heartbeat_json, heartbeat_payload};
use crate::gateway::scheduler::{acknowledged, rate_limit_applied, GuildMemberRequestScheduler};
use crate::gateway::session::{opt_view, FrameOutcome, SessionState};
use crate::ids::marker::GuildMarker;
use crate::ids::Id;
use crate::json::{field, json_bool, json_str, json_u64, serialize, Json, JsonValue};
use crate::text::{concat2, decimal, decimal_string, owned, same_text};

verus! {

/// What to do after one connection ends.
#[derive(Clone, Copy, Debug, PartialEq, Eq, Structural)]
pub enum ConnectionOutcome {
    /// Reconnect and RESUME with the saved session and sequence.
    Resume,
    /// Throw the session away and IDENTIFY afresh.
    Reidentify,
    /// Nobody is listening any more: stop.
    Stop,
    /// Discord refused the session in a way retrying cannot fix.
    Fatal,
}

pub open spec fn close_code_outcome_of(code: u16) -> ConnectionOutcome {
    if code == 4004 || (4010 <= code && code <= 4014) {
        ConnectionOutcome::Fatal
    } else if code == 4007 || code == 4009 {
        ConnectionOutcome::Reidentify
    } else if (4000 <= code && code <= 4003) || code == 4005 || code == 4008 {
        ConnectionOutcome::Resume
    } else {
        ConnectionOutcome::Reidentify
    }
}

/// What a close code leads to: authentication and configuration failures
/// are fatal, an invalid sequence or a timed-out session re-identifies,
/// transient errors resume, and anything else re-identifies.
pub fn close_code_outcome(code: u16) -> (o: ConnectionOutcome)
    ensures
        o == close_code_outcome_of(code),
{
    if code == 4004 || (4010 <= code && code <= 4014) {
        ConnectionOutcome::Fatal
    } else if code == 4007 || code == 4009 {
        ConnectionOutcome::Reidentify
    } else if (4000 <= code && code <= 4003) || code == 4005 || code == 4008 {
        ConnectionOutcome::Resume
    } else {
        ConnectionOutcome::Reidentify
    }
}

/// A close with no frame is a dropped connection: resume.
pub fn close_outcome(code: Option<u16>) -> (o: ConnectionOutcome)
    ensures
        o == match code {
            Some(c) => close_code_outcome_of(c),
            None => ConnectionOutcome::Resume,
        },
{
    match code {
        Some(c) => close_code_outcome(c),
        None => ConnectionOutcome::Resume,
    }
}

/// Whether a heartbeat is out without its ACK.
#[derive(Debug, Default)]
pub struct HeartbeatAckState {
    pub awaiting_ack: bool,
}

impl HeartbeatAckState {
    /// A heartbeat is going out. False when the last one was never
    /// acknowledged: the connection is dead.
    pub fn mark_heartbeat_sent(&mut self) -> (ok: bool)
        ensures
            ok == !old(self).awaiting_ack,
            final(self).awaiting_ack,
    {
        if self.awaiting_ack {
            return false;
        }
        self.awaiting_ack = true;
        true
    }

    pub fn mark_ack_received(&mut self)
        ensures
            !final(self).awaiting_ack,
    {
        self.awaiting_ack = false;
    }
}

/// A RATE_LIMITED reply to member requests, read from its dispatch.
#[derive(Clone, Debug, PartialEq, Eq)]
pub struct GuildMemberRateLimit {
    pub guild_id: Id<GuildMarker>,
    pub nonce: Option<String>,
    /// Milliseconds, capped at half an hour.
    pub retry_after_ms: u64,
}

/// The longest a RATE_LIMITED reply is obeyed for.
pub const MAX_GATEWAY_RETRY_DELAY_MS: u64 = 1_800_000;

pub open spec fn u64_field(j: Json, k: Seq<char>) -> Option<u64> {
    match field(j, k) {
        Some(v) => json_u64(v),
        None => None,
    }
}

pub open spec fn str_field(j: Json, k: Seq<char>) -> Option<Seq<char>> {
    match field(j, k) {
        Some(v) => json_str(v),
        None => None,
    }
}

pub open spec fn bool_field(j: Json, k: Seq<char>) -> Option<bool> {
    match field(j, k) {
        Some(v) => json_bool(v),
        None => None,
    }
}

/// The opcode of a frame; a frame without one reads as 0.
pub open spec fn frame_op(j: Json) -> u64 {
    match u64_field(j, "op"@) {
        Some(n) => n,
        None => 0,
    }
}

/// The dispatch type of a frame; a frame without one reads as empty.
pub open spec fn frame_type(j: Json) -> Seq<char> {
    match str_field(j, "t"@) {
        Some(t) => t,
        None => Seq::empty(),
    }
}

/// The installation id a READY carries under `apex_experiments`.
pub open spec fn ready_installation_of(d: Json) -> Option<Seq<char>> {
    match field(d, "apex_experiments"@) {
        Some(e) => str_field(e, "installation"@),
        None => None,
    }
}

fn u64_at(v: &JsonValue, key: &str) -> (r: Option<u64>)
    ensures
        r == u64_field(v.model(), key@),
{
    match v.get(key) {
        Some(x) => x.as_u64(),
        None => None,
    }
}

fn str_at<'a>(v: &'a JsonValue, key: &str) -> (r: Option<&'a str>)
    ensures
        match r {
            Some(t) => str_field(v.model(), key@) == Some(t@),
            None => str_field(v.model(), key@) is None,
        },
{
    match v.get(key) {
        Some(x) => x.as_str(),
        None => None,
    }
}

fn owned_opt(o: Option<&str>) -> (r: Option<String>)
    ensures
        opt_view(r) == match o {
            Some(t) => Some(t@),
            None => None,
        },
{
    match o {
        Some(t) => Some(owned(t)),
        None => None,
    }
}

/// The installation id Discord assigned in a READY's data.
pub fn ready_installation_id(ready: &JsonValue) -> (r: Option<&str>)
    ensures
        match r {
            Some(t) => ready_installation_of(ready.model()) == Some(t@),
            None => ready_installation_of(ready.model()) is None,
        },
{
    match ready.get("apex_experiments") {
        Some(e) => str_at(e, "installation"),
        None => None,
    }
}

/// What handling one frame decided, for the caller to carry out.
#[derive(Debug)]
pub struct FrameStep {
    pub outcome: FrameOutcome,
    /// A heartbeat to send at once: Discord asked for one.
    pub heartbeat: Option<String>,
    /// The sequence this dispatch carried.
    pub sequence: Option<u64>,
    /// READY named a session: the id to publish.
    pub published_session: Option<Option<String>>,
    /// READY carried the installation id Discord assigned.
    pub installation_id: Option<String>,
    /// The session was resumed.
    pub resumed: bool,
    /// A session that had been READY before was identified again.
    pub reidentified: bool,
    /// The frame was a dispatch, to be handed on.
    pub dispatch: bool,
}

/// A dispatch frame with data that is a READY.
pub open spec fn is_ready(j: Json) -> bool {
    frame_op(j) == 0 && frame_type(j) == "READY"@ && field(j, "d"@) is Some
}

pub open spec fn is_resumed(j: Json) -> bool {
    frame_op(j) == 0 && !is_ready(j) && frame_type(j) == "RESUMED"@
}

/// The outcome of a frame: a RECONNECT resumes; an INVALID_SESSION resumes
/// when Discord says it is resumable and re-identifies otherwise; anything
/// else goes on.
pub open spec fn frame_outcome_of(j: Json) -> FrameOutcome {
    let op = frame_op(j);
    if op == 7 {
        FrameOutcome::Resume
    } else if op == 9 {
        if bool_field(j, "d"@) == Some(true) { FrameOutcome::Resume } else { FrameOutcome::Reidentify }
    } else {
        FrameOutcome::Continue
    }
}

/// Handle one parsed frame. A dispatch moves the sequence; a RATE_LIMITED
/// one (whose reply the caller read into `rate_limit`) delays member
/// requests, and a GUILD_MEMBERS_CHUNK acknowledges one; READY records the
/// session to resume and RESUMED marks the connection established. A
/// heartbeat request is answered with the current sequence, and an ACK
/// clears the wait for one.
pub fn handle_frame(
    frame: &JsonValue,
    session: &mut SessionState,
    requests: &mut GuildMemberRequestScheduler,
    heartbeat_ack: &mut HeartbeatAckState,
    current_sequence: Option<u64>,
    rate_limit: Option<GuildMemberRateLimit>,
    now: u64,
) -> (step: FrameStep)
    requires
        rate_limit matches Some(r) ==> now + r.retry_after_ms <= u64::MAX,
    ensures
        ({
            let j = frame.model();
            let op = frame_op(j);
            let t = frame_type(j);
            let seq = u64_field(j, "s"@);
            let d = field(j, "d"@);
            &&& step.outcome == frame_outcome_of(j)
            &&& step.dispatch == (op == 0)
            &&& step.sequence == if op == 0 { seq } else { None }
            &&& final(session).last_sequence == if op == 0 && seq is Some { seq } else { old(session).last_sequence }
            &&& final(session).malformed_frame_recovery == if op == 0 && seq is Some {
                crate::gateway::session::MalformedFrameRecovery::NotAttempted
            } else {
                old(session).malformed_frame_recovery
            }
            &&& if is_ready(j) {
                &&& opt_view(final(session).session_id) == str_field(d.unwrap(), "session_id"@)
                &&& opt_view(final(session).resume_url) == str_field(d.unwrap(), "resume_gateway_url"@)
                &&& final(session).has_received_ready
                &&& final(session).established
                &&& step.published_session matches Some(p) && opt_view(p) == str_field(d.unwrap(), "session_id"@)
                &&& opt_view(step.installation_id) == ready_installation_of(d.unwrap())
                &&& step.reidentified == old(session).has_received_ready
                &&& !step.resumed
            } else {
                &&& opt_view(final(session).session_id) == opt_view(old(session).session_id)
                &&& opt_view(final(session).resume_url) == opt_view(old(session).resume_url)
                &&& final(session).has_received_ready == old(session).has_received_ready
                &&& final(session).established == (old(session).established || is_resumed(j))
                &&& step.published_session is None
                &&& step.installation_id is None
                &&& !step.reidentified
                &&& step.resumed == is_resumed(j)
            }
            &&& if op == 0 && t == "RATE_LIMITED"@ && rate_limit is Some {
                let r = rate_limit.unwrap();
                rate_limit_applied(*old(requests), *final(requests), r.guild_id, opt_view(r.nonce), r.retry_after_ms, now)
            } else if op == 0 && t == "GUILD_MEMBERS_CHUNK"@ && d is Some && str_field(d.unwrap(), "nonce"@) is Some {
                acknowledged(*old(requests), *final(requests), str_field(d.unwrap(), "nonce"@).unwrap())
            } else {
                &&& final(requests).pending@ == old(requests).pending@
                &&& final(requests).in_flight == old(requests).in_flight
                &&& final(requests).awaiting_response@ == old(requests).awaiting_response@
                &&& final(requests).guild_rate_limit_until@ == old(requests).guild_rate_limit_until@
                &&& final(requests).next_nonce == old(requests).next_nonce
            }
            &&& if op == 1 {
                &&& step.heartbeat matches Some(h) && h@ == serialize(heartbeat_json(current_sequence))
                &&& final(heartbeat_ack).awaiting_ack
            } else if op == 11 {
                &&& step.heartbeat is None
                &&& !final(heartbeat_ack).awaiting_ack
            } else {
                &&& step.heartbeat is None
                &&& final(heartbeat_ack).awaiting_ack == old(heartbeat_ack).awaiting_ack
            }
        }),
{
    let op = match u64_at(frame, "op") {
        Some(n) => n,
        None => 0,
    };
    let mut step = FrameStep {
        outcome: FrameOutcome::Continue,
        heartbeat: None,
        sequence: None,
        published_session: None,
        installation_id: None,
        resumed: false,
        reidentified: false,
        dispatch: op == 0,
    };
    if op == 0 {
        let sequence = u64_at(frame, "s");
        if let Some(s) = sequence {
            session.record_sequence(s);
        }
        step.sequence = sequence;
        let t = match str_at(frame, "t") {
            Some(t) => t,
            None => "",
        };
        proof {
            reveal_strlit("");
            assert(""@ =~= Seq::<char>::empty());
        }
        let data = frame.get("d");
        if same_text(t, "RATE_LIMITED") && rate_limit.is_some() {
            match &rate_limit {
                Some(r) => {
                    let nonce = match &r.nonce {
                        Some(n) => Some(n.as_str()),
                        None => None,
                    };
                    requests.apply_rate_limit(r.guild_id, nonce, r.retry_after_ms, now);
                },
                None => {},
            }
        } else if same_text(t, "GUILD_MEMBERS_CHUNK") {
            match data {
                Some(d) => match str_at(d, "nonce") {
                    Some(n) => requests.acknowledge(n),
                    None => {},
                },
                None => {},
            }
        }
        if same_text(t, "READY") && data.is_some() {
            match data {
                Some(d) => {
                    let was_reidentify = session.has_received_ready;
                    step.installation_id = owned_opt(ready_installation_id(d));
                    session.session_id = owned_opt(str_at(d, "session_id"));
                    session.resume_url = owned_opt(str_at(d, "resume_gateway_url"));
                    step.published_session = Some(owned_opt(str_at(d, "session_id")));
                    step.reidentified = was_reidentify;
                    session.has_received_ready = true;
                    session.established = true;
                },
                None => {},
            }
        } else if same_text(t, "RESUMED") {
            session.established = true;
            step.resumed = true;
        }
        return step;
    }
    if op == 1 {
        step.heartbeat = Some(heartbeat_payload(current_sequence));
        heartbeat_ack.mark_heartbeat_sent();
        return step;
    }
    if op == 7 {
        step.outcome = FrameOutcome::Resume;
        return step;
    }
    if op == 9 {
        let resumable = match frame.get("d") {
            Some(d) => match d.as_bool() {
                Some(b) => b,
                None => false,
            },
            None => false,
        };
        step.outcome = if resumable { FrameOutcome::Resume } else { FrameOutcome::Reidentify };
        return step;
    }
    if op == 11 {
        heartbeat_ack.mark_ack_received();
    }
    step
}

/// The heartbeat interval a HELLO sets, in milliseconds (Discord's usual
/// 41250 when it names none), or why the frame is not a HELLO.
pub open spec fn hello_interval_of(j: Json) -> Result<u64, Seq<char>> {
    match u64_field(j, "op"@) {
        Some(10) => Ok(
            match field(j, "d"@) {
                Some(d) => match u64_field(d, "heartbeat_interval"@) {
                    Some(n) => n,
                    None => 41250,
                },
                None => 41250,
            },
        ),
        Some(op) => Err("first frame was not HELLO: "@ + decimal(op as nat)),
        None => Err("first frame was not HELLO: 0"@),
    }
}

pub fn hello_heartbeat_interval(hello: &JsonValue) -> (r: Result<u64, String>)
    ensures
        match r {
            Ok(n) => hello_interval_of(hello.model()) == Ok::<u64, Seq<char>>(n),
            Err(e) => hello_interval_of(hello.model()) == Err::<u64, Seq<char>>(e@),
        },
{
    match u64_at(hello, "op") {
        Some(10) => {
            let interval = match hello.get("d") {
                Some(d) => match u64_at(d, "heartbeat_interval") {
                    Some(n) => n,
                    None => 41250,
                },
                None => 41250,
            };
            Ok(interval)
        },
        Some(op) => Err(concat2("first frame was not HELLO: ", decimal_string(op).as_str())),
        None => {
            let e = concat2("first frame was not HELLO: ", decimal_string(0).as_str());
            proof {
                reveal_strlit("0");
                assert(decimal(0nat) =~= "0"@);
                assert("first frame was not HELLO: "@ + "0"@ =~= "first frame was not HELLO: 0"@) by {
                    reveal_strlit("first frame was not HELLO: ");
                    reveal_strlit("first frame was not HELLO: 0");
                }
            }
            Err(e)
        },
    }
}


/// Discord's RECONNECT (op 7) always asks for a resume with the saved
/// session, whatever else the frame carries. Only an INVALID_SESSION (op 9)
/// whose data is not `true` throws the session away, only a RECONNECT or a
/// resumable INVALID_SESSION resumes, and every other frame lets the
/// connection go on.
pub proof fn law_reconnect_resumes_and_only_a_lost_session_reidentifies(j: Json)
    ensures
        u64_field(j, "op"@) == Some(7u64) ==> frame_outcome_of(j) == FrameOutcome::Resume,
        frame_outcome_of(j) == FrameOutcome::Reidentify <==> (u64_field(j, "op"@) == Some(9u64) && bool_field(j, "d"@) != Some(true)),
        frame_outcome_of(j) == FrameOutcome::Resume <==> (u64_field(j, "op"@) == Some(7u64) || (u64_field(j, "op"@) == Some(9u64)
            && bool_field(j, "d"@) == Some(true))),
        frame_outcome_of(j) == FrameOutcome::Continue <==> !(u64_field(j, "op"@) == Some(7u64) || u64_field(j, "op"@) == Some(9u64)),
{
}

/// How a close code is answered: 4004 (authentication failed) and
/// 4010-4014 (bad shard, sharding required, bad version, bad or disallowed
/// intents) stop for good; only the transient 4000-4003, 4005 and 4008
/// resume the session; 4007 (invalid sequence), 4009 (session timed out)
/// and every other code re-identify.
pub proof fn law_close_codes_decide_the_reconnect(code: u16)
    ensures
        (code == 4007 || code == 4009) ==> close_code_outcome_of(code) == ConnectionOutcome::Reidentify,
        close_code_outcome_of(code) == ConnectionOutcome::Fatal <==> (code == 4004 || (4010 <= code && code <= 4014)),
        close_code_outcome_of(code) == ConnectionOutcome::Resume <==> ((4000 <= code && code <= 4003) || code == 4005 || code == 4008),
        close_code_outcome_of(code) == ConnectionOutcome::Reidentify <==> !(code == 4004 || (4000 <= code && code <= 4003) || code == 4005
            || code == 4008 || (4010 <= code && code <= 4014)),
        close_code_outcome_of(code) != ConnectionOutcome::Stop,
{
}


/// Only a HELLO (op 10) can open a connection. It sets the heartbeat to the
/// interval it names, or to Discord's usual 41250 ms when it names none.
pub proof fn law_only_a_hello_opens_the_connection(j: Json, interval: u64)
    ensures
        hello_interval_of(j) is Ok <==> u64_field(j, "op"@) == Some(10u64),
        u64_field(j, "op"@) == Some(10u64) && (field(j, "d"@) matches Some(d) && u64_field(d, "heartbeat_interval"@) == Some(interval))
            ==> hello_interval_of(j) == Ok::<u64, Seq<char>>(interval),
        u64_field(j, "op"@) == Some(10u64) && (field(j, "d"@) is None || u64_field(field(j, "d"@).unwrap(), "heartbeat_interval"@) is None)
            ==> hello_interval_of(j) == Ok::<u64, Seq<char>>(41250),
{
}

} // verus!
