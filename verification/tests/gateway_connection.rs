use concord::gateway::connection::{connection_step, ConnectionAction, ConnectionEvent, ConnectionPhase};
use concord::gateway::frame::ConnectionOutcome;
use concord::gateway::session::{GatewayHandshake, SessionState};
use concord::gateway::zlib::{inflate_progress, InflateProgress, InflateStep};
use concord::json::JsonValue;

fn object(fields: Vec<(&str, JsonValue)>) -> JsonValue {
    JsonValue::Object(fields.into_iter().map(|(k, v)| (k.to_owned(), v)).collect())
}

fn resumable() -> SessionState {
    let mut session = SessionState::default();
    session.session_id = Some("abc".to_owned());
    session.resume_url = Some("wss://resume.example".to_owned());
    session.last_sequence = Some(7);
    session
}

fn resume() -> GatewayHandshake {
    GatewayHandshake::Resume { session_id: "abc".to_owned(), sequence: 7 }
}

#[test]
fn hello_starts_the_handshake_and_its_sending_starts_the_session() {
    let mut phase = ConnectionPhase::AwaitingHello;
    let mut session = resumable();
    let hello = object(vec![("op", JsonValue::UInt(10)), ("d", object(vec![("heartbeat_interval", JsonValue::UInt(41250))]))]);
    let action = connection_step(&mut phase, &mut session, &resume(), &ConnectionEvent::Text(hello));
    assert_eq!(action, ConnectionAction::SendHandshake { heartbeat_interval_ms: 41250 });
    assert_eq!(phase, ConnectionPhase::Handshaking);
    assert_eq!(connection_step(&mut phase, &mut session, &resume(), &ConnectionEvent::HandshakeSent), ConnectionAction::Continue);
    assert_eq!(phase, ConnectionPhase::Running);
    assert_eq!(session.session_id.as_deref(), Some("abc"));
}

#[test]
fn a_first_frame_that_is_not_hello_fails_and_gives_up_the_resume() {
    let mut phase = ConnectionPhase::AwaitingHello;
    let mut session = resumable();
    let dispatch = object(vec![("op", JsonValue::UInt(0))]);
    let action = connection_step(&mut phase, &mut session, &resume(), &ConnectionEvent::Text(dispatch));
    assert_eq!(action, ConnectionAction::Fail("first frame was not HELLO: 0".to_owned()));
    assert_eq!(phase, ConnectionPhase::AwaitingHello);
    assert!(session.session_id.is_none() && session.resume_url.is_none() && session.last_sequence.is_none());
}

#[test]
fn a_failed_identify_setup_keeps_the_session() {
    let mut phase = ConnectionPhase::AwaitingHello;
    let mut session = resumable();
    let action = connection_step(&mut phase, &mut session, &GatewayHandshake::Identify, &ConnectionEvent::StreamEnd);
    assert_eq!(action, ConnectionAction::Fail("connection closed before HELLO".to_owned()));
    assert_eq!(session.last_sequence, Some(7));
}

#[test]
fn a_close_before_hello_reidentifies() {
    let mut phase = ConnectionPhase::AwaitingHello;
    let mut session = resumable();
    let action = connection_step(&mut phase, &mut session, &resume(), &ConnectionEvent::Close(Some(4000)));
    assert_eq!(action, ConnectionAction::Finish(ConnectionOutcome::Reidentify));
    assert_eq!(session.session_id.as_deref(), Some("abc"));
}

#[test]
fn a_running_connection_resumes_after_transport_trouble() {
    for event in [
        ConnectionEvent::ReadError("reset".to_owned()),
        ConnectionEvent::StreamEnd,
        ConnectionEvent::HeartbeatDead,
        ConnectionEvent::SendFailed("closed".to_owned()),
        ConnectionEvent::DecodeError("bad".to_owned()),
    ] {
        let mut phase = ConnectionPhase::Running;
        let mut session = resumable();
        assert_eq!(connection_step(&mut phase, &mut session, &resume(), &event), ConnectionAction::Finish(ConnectionOutcome::Resume));
        assert_eq!(session.last_sequence, Some(7));
    }
    let mut phase = ConnectionPhase::Running;
    let mut session = resumable();
    assert_eq!(
        connection_step(&mut phase, &mut session, &resume(), &ConnectionEvent::Close(Some(4004))),
        ConnectionAction::Finish(ConnectionOutcome::Fatal)
    );
    assert_eq!(
        connection_step(&mut phase, &mut session, &resume(), &ConnectionEvent::Text(JsonValue::Null)),
        ConnectionAction::HandleFrame
    );
}

#[test]
fn a_running_connection_resumes_once_on_a_malformed_frame() {
    let mut phase = ConnectionPhase::Running;
    let mut session = resumable();
    let bad = ConnectionEvent::Malformed("eof".to_owned());
    assert_eq!(connection_step(&mut phase, &mut session, &resume(), &bad), ConnectionAction::Finish(ConnectionOutcome::Resume));
    assert_eq!(connection_step(&mut phase, &mut session, &resume(), &bad), ConnectionAction::Finish(ConnectionOutcome::Reidentify));
}

#[test]
fn an_inflation_step_takes_in_what_the_inflater_produced() {
    let mut progress = InflateProgress { input_offset: 0, output: Vec::new() };
    let buffer = b"{\"op\":11}zzzz".to_vec();
    let step = inflate_progress(&mut progress, 20, Ok(false), 100, 120, 50, 59, &buffer);
    assert_eq!(step, InflateStep::Done { stream_ended: false });
    assert_eq!(progress.input_offset, 20);
    assert_eq!(progress.output, b"{\"op\":11}".to_vec());
}

#[test]
fn an_inflation_step_refuses_counts_it_cannot_trust() {
    let buffer = vec![0u8; 8];
    let mut progress = InflateProgress { input_offset: 0, output: Vec::new() };
    assert_eq!(
        inflate_progress(&mut progress, 4, Ok(false), 0, 5, 0, 0, &buffer),
        InflateStep::Fail("gateway zlib input count exceeds platform size".to_owned())
    );
    assert_eq!(
        inflate_progress(&mut progress, 4, Ok(false), 0, 1, 0, 9, &buffer),
        InflateStep::Fail("gateway zlib output count exceeds platform size".to_owned())
    );
    assert_eq!(
        inflate_progress(&mut progress, 4, Ok(true), 0, 1, 0, 1, &buffer),
        InflateStep::Fail("gateway zlib stream ended before the input was consumed".to_owned())
    );
    let mut stuck = InflateProgress { input_offset: 0, output: Vec::new() };
    assert_eq!(
        inflate_progress(&mut stuck, 4, Ok(false), 3, 3, 3, 3, &buffer),
        InflateStep::Fail("gateway zlib decoder made no progress".to_owned())
    );
    assert_eq!(
        inflate_progress(&mut stuck, 4, Err("corrupt".to_owned()), 0, 0, 0, 0, &buffer),
        InflateStep::Fail("gateway zlib decode failed: corrupt".to_owned())
    );
}

#[test]
fn a_full_buffer_with_input_left_goes_on() {
    let buffer = vec![7u8; 8];
    let mut progress = InflateProgress { input_offset: 0, output: Vec::new() };
    assert_eq!(inflate_progress(&mut progress, 4, Ok(false), 0, 2, 0, 8, &buffer), InflateStep::Continue);
    assert_eq!(progress.input_offset, 2);
    assert_eq!(progress.output.len(), 8);
}
