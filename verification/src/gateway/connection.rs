//! One connection's course: HELLO first, then the handshake, then frames
//! until something ends it. Each thing the socket, the heartbeat or the
//! writer reports is an event; what it leads to is decided here.
use vstd::prelude::*;

use crate::gateway::frame::{close_code_outcome_of, close_outcome, hello_heartbeat_interval, hello_interval_of, ConnectionOutcome};
use crate::gateway::session::{opt_view, FrameOutcome, GatewayHandshake, SessionState};
use crate::json::JsonValue;
use crate::text::{concat2, owned};

verus! {

/// Where a connection is in its course.
#[derive(Clone, Copy, Debug, PartialEq, Eq, Structural)]
pub enum ConnectionPhase {
    /// Connected; Discord speaks first, with HELLO.
    AwaitingHello,
    /// HELLO came; the IDENTIFY or RESUME is going out.
    Handshaking,
    /// The session is running.
    Running,
}

/// What the socket, the heartbeat or the writer reported.
#[derive(Debug)]
pub enum ConnectionEvent {
    /// A frame, parsed.
    Text(JsonValue),
    /// A frame that did not parse, with the parser's error.
    Malformed(String),
    /// The compressed transport failed, and why.
    DecodeError(String),
    /// A ping, a pong or a raw frame.
    ControlFrame,
    /// Discord closed the socket, with its close code if it gave one.
    Close(Option<u16>),
    /// Reading the socket failed, and why.
    ReadError(String),
    /// The socket ended without a close.
    StreamEnd,
    /// A heartbeat went unacknowledged.
    HeartbeatDead,
    /// The handshake went out.
    HandshakeSent,
    /// Sending failed, and why.
    SendFailed(String),
}

/// What the connection does next.
#[derive(Debug, PartialEq, Eq)]
pub enum ConnectionAction {
    /// Send the IDENTIFY or RESUME, and beat every this many milliseconds.
    SendHandshake { heartbeat_interval_ms: u64 },
    /// Hand the frame to `handle_frame`.
    HandleFrame,
    /// Nothing to do; wait for the next event.
    Continue,
    /// Setting the connection up failed, and why.
    Fail(String),
    /// The connection is over.
    Finish(ConnectionOutcome),
}

/// An action as plain values.
pub enum ActionModel {
    SendHandshake(u64),
    HandleFrame,
    Continue,
    Fail(Seq<char>),
    Finish(ConnectionOutcome),
}

pub open spec fn action_model(a: ConnectionAction) -> ActionModel {
    match a {
        ConnectionAction::SendHandshake { heartbeat_interval_ms } => ActionModel::SendHandshake(heartbeat_interval_ms),
        ConnectionAction::HandleFrame => ActionModel::HandleFrame,
        ConnectionAction::Continue => ActionModel::Continue,
        ConnectionAction::Fail(m) => ActionModel::Fail(m@),
        ConnectionAction::Finish(o) => ActionModel::Finish(o),
    }
}

/// Whether an event before the session runs fails the setup: everything
/// but a HELLO, a close, and a handshake that went out.
pub open spec fn fails_setup(phase: ConnectionPhase, event: ConnectionEvent) -> bool {
    match phase {
        ConnectionPhase::AwaitingHello => match event {
            ConnectionEvent::Text(j) => hello_interval_of(j.model()) is Err,
            ConnectionEvent::Close(_) => false,
            _ => true,
        },
        ConnectionPhase::Handshaking => event is SendFailed,
        ConnectionPhase::Running => false,
    }
}

/// What an event leads to. Before HELLO: a HELLO sends the handshake, a
/// close re-identifies, and anything else fails the setup. While the
/// handshake goes out, a failed send fails the setup. Once running, a frame
/// is handled, a close ends the connection as its code says, a frame that
/// does not parse resumes once and then re-identifies, and a read error,
/// the end of the stream, a transport failure, a dead heartbeat or a
/// failed send resume.
pub open spec fn step_action(phase: ConnectionPhase, session: SessionState, event: ConnectionEvent) -> ActionModel {
    match phase {
        ConnectionPhase::AwaitingHello => match event {
            ConnectionEvent::Text(j) => match hello_interval_of(j.model()) {
                Ok(n) => ActionModel::SendHandshake(n),
                Err(e) => ActionModel::Fail(e),
            },
            ConnectionEvent::Close(_) => ActionModel::Finish(ConnectionOutcome::Reidentify),
            ConnectionEvent::Malformed(e) => ActionModel::Fail("HELLO parse: "@ + e@),
            ConnectionEvent::DecodeError(e) => ActionModel::Fail(e@),
            ConnectionEvent::ReadError(e) => ActionModel::Fail("read HELLO failed: "@ + e@),
            ConnectionEvent::SendFailed(e) => ActionModel::Fail(e@),
            ConnectionEvent::StreamEnd => ActionModel::Fail("connection closed before HELLO"@),
            _ => ActionModel::Fail("unexpected control frame before HELLO"@),
        },
        _ => match event {
            ConnectionEvent::SendFailed(e) if phase == ConnectionPhase::Handshaking => ActionModel::Fail(e@),
            ConnectionEvent::HandshakeSent => ActionModel::Continue,
            ConnectionEvent::Text(_) => ActionModel::HandleFrame,
            ConnectionEvent::ControlFrame => ActionModel::Continue,
            ConnectionEvent::Close(code) => ActionModel::Finish(match code {
                Some(c) => close_code_outcome_of(c),
                None => ConnectionOutcome::Resume,
            }),
            ConnectionEvent::Malformed(_) => ActionModel::Finish(
                if session.malformed_outcome_of() == FrameOutcome::Reidentify { ConnectionOutcome::Reidentify } else { ConnectionOutcome::Resume },
            ),
            _ => ActionModel::Finish(ConnectionOutcome::Resume),
        },
    }
}

/// The phase after an event: HELLO starts the handshake, its sending
/// starts the session; nothing else moves it.
pub open spec fn step_phase(phase: ConnectionPhase, event: ConnectionEvent) -> ConnectionPhase {
    match phase {
        ConnectionPhase::AwaitingHello => match event {
            ConnectionEvent::Text(j) => if hello_interval_of(j.model()) is Ok { ConnectionPhase::Handshaking } else { phase },
            _ => phase,
        },
        ConnectionPhase::Handshaking => if event is HandshakeSent { ConnectionPhase::Running } else { phase },
        ConnectionPhase::Running => phase,
    }
}

/// Take one event. A setup that fails after a RESUME was planned forgets
/// the session, so the next connection identifies afresh; a frame that
/// does not parse once the session runs spends the session's one resume;
/// nothing else touches the session.
pub fn connection_step(
    phase: &mut ConnectionPhase,
    session: &mut SessionState,
    handshake: &GatewayHandshake,
    event: &ConnectionEvent,
) -> (a: ConnectionAction)
    ensures
        action_model(a) == step_action(*old(phase), *old(session), *event),
        *final(phase) == step_phase(*old(phase), *event),
        fails_setup(*old(phase), *event) ==> if handshake is Resume {
            SessionState::cleared_from(*final(session), *old(session))
        } else {
            SessionState::same_as(*final(session), *old(session))
        },
        !fails_setup(*old(phase), *event) && *old(phase) != ConnectionPhase::AwaitingHello && event is Malformed ==> {
            &&& final(session).malformed_frame_recovery == old(session).recovery_after_malformed()
            &&& opt_view(final(session).session_id) == opt_view(old(session).session_id)
            &&& opt_view(final(session).resume_url) == opt_view(old(session).resume_url)
            &&& final(session).last_sequence == old(session).last_sequence
            &&& final(session).has_received_ready == old(session).has_received_ready
            &&& final(session).established == old(session).established
        },
        !fails_setup(*old(phase), *event) && !(*old(phase) != ConnectionPhase::AwaitingHello && event is Malformed) ==> *final(session) == *old(session),
{
    match *phase {
        ConnectionPhase::AwaitingHello => {
            let failure = match event {
                ConnectionEvent::Text(j) => match hello_heartbeat_interval(j) {
                    Ok(n) => {
                        *phase = ConnectionPhase::Handshaking;
                        return ConnectionAction::SendHandshake { heartbeat_interval_ms: n };
                    },
                    Err(e) => e,
                },
                ConnectionEvent::Close(_) => return ConnectionAction::Finish(ConnectionOutcome::Reidentify),
                ConnectionEvent::Malformed(e) => concat2("HELLO parse: ", e.as_str()),
                ConnectionEvent::DecodeError(e) => owned(e.as_str()),
                ConnectionEvent::ReadError(e) => concat2("read HELLO failed: ", e.as_str()),
                ConnectionEvent::SendFailed(e) => owned(e.as_str()),
                ConnectionEvent::StreamEnd => owned("connection closed before HELLO"),
                _ => owned("unexpected control frame before HELLO"),
            };
            session.abandon_failed_resume(handshake);
            ConnectionAction::Fail(failure)
        },
        _ => {
            match event {
                ConnectionEvent::SendFailed(e) => {
                    if *phase == ConnectionPhase::Handshaking {
                        session.abandon_failed_resume(handshake);
                        return ConnectionAction::Fail(owned(e.as_str()));
                    }
                    ConnectionAction::Finish(ConnectionOutcome::Resume)
                },
                ConnectionEvent::HandshakeSent => {
                    if *phase == ConnectionPhase::Handshaking {
                        *phase = ConnectionPhase::Running;
                    }
                    ConnectionAction::Continue
                },
                ConnectionEvent::Text(_) => ConnectionAction::HandleFrame,
                ConnectionEvent::ControlFrame => ConnectionAction::Continue,
                ConnectionEvent::Close(code) => ConnectionAction::Finish(close_outcome(*code)),
                ConnectionEvent::Malformed(_) => match session.malformed_frame_outcome() {
                    FrameOutcome::Reidentify => ConnectionAction::Finish(ConnectionOutcome::Reidentify),
                    _ => ConnectionAction::Finish(ConnectionOutcome::Resume),
                },
                _ => ConnectionAction::Finish(ConnectionOutcome::Resume),
            }
        },
    }
}

} // verus!
