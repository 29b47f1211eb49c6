use concord::gateway::activity::activity_gateway_payload;
use concord::gateway::commands::{dispatch_command, CommandDispatch, GatewayCommand, GatewaySessionResources, SubscriptionDeduper};
use concord::gateway::frame::{close_code_outcome, handle_frame, hello_heartbeat_interval, ConnectionOutcome, HeartbeatAckState};
use concord::gateway::pacing::{after_connection, reconnect_delay, sender_step, GatewaySendWindow, ReconnectStep, SenderStep};
use concord::gateway::payloads::{
    build_resume_payload, heartbeat_payload, request_guild_members_by_ids_payload, voice_state_update_payload,
};
use concord::gateway::redact::redact_token;
use concord::gateway::scheduler::{GuildMemberRequestKind, GuildMemberRequestScheduler};
use concord::gateway::session::{normalized_resume_url, FrameOutcome, GatewayHandshake, SessionState};
use concord::gateway::zlib::GatewayZlibDecoder;
use concord::ids::Id;
use concord::json::{to_json_string, JsonValue};
use concord::presence::ActivityInfo;
use std::io::Write;

fn object(fields: Vec<(&str, JsonValue)>) -> JsonValue {
    let mut sorted: Vec<(String, JsonValue)> = fields.into_iter().map(|(k, v)| (k.to_owned(), v)).collect();
    sorted.sort_by(|a, b| a.0.cmp(&b.0));
    JsonValue::Object(sorted)
}

fn text(s: &str) -> JsonValue {
    JsonValue::Str(s.to_owned())
}

#[test]
fn an_identify_frame_never_carries_its_token_into_the_log() {
    let frame = r#"{"op":2,"d":{"token":"hunter2.abc.def","properties":{}}}"#;
    let traced = redact_token(frame);

    assert!(!traced.contains("hunter2"), "got {traced}");
    assert!(traced.contains("[redacted]"));
    assert!(traced.contains(r#""op":2"#));
    assert!(traced.contains("properties"));
}

#[test]
fn a_frame_with_no_token_is_untouched() {
    let frame = r#"{"op":1,"d":42}"#;
    assert_eq!(redact_token(frame), frame);
}

#[test]
fn a_truncated_frame_is_withheld_rather_than_guessed_at() {
    let traced = redact_token(r#"{"op":2,"d":{"token":"hunter2"#);
    assert!(!traced.contains("hunter2"), "got {traced}");
}

#[test]
fn a_resume_frame_is_compact_json_with_sorted_keys() {
    assert_eq!(build_resume_payload("t", "s", 42), r#"{"d":{"seq":42,"session_id":"s","token":"t"},"op":6}"#);
    assert_eq!(heartbeat_payload(None), r#"{"d":null,"op":1}"#);
    assert_eq!(heartbeat_payload(Some(7)), r#"{"d":7,"op":1}"#);
}

#[test]
fn a_dm_call_sends_a_null_guild() {
    assert_eq!(
        voice_state_update_payload(None, Some(Id::new(5)), true, false),
        r#"{"d":{"channel_id":"5","guild_id":null,"self_deaf":false,"self_mute":true},"op":4}"#
    );
}

#[test]
fn a_member_request_names_at_most_a_hundred_users() {
    let ids: Vec<_> = (1..=150u64).map(Id::new).collect();
    let payload = request_guild_members_by_ids_payload(Id::new(9), &ids, false, "n");
    assert!(payload.contains("\"100\""));
    assert!(!payload.contains("\"101\""));
}

#[test]
fn an_activity_carries_its_buttons_as_parallel_labels_and_urls() {
    let mut activity = ActivityInfo::playing("Doom");
    activity.buttons.push(concord::presence::ActivityButton { label: "Join".to_owned(), url: "https://x".to_owned() });
    activity.instance = Some(true);
    let value = activity_gateway_payload(&activity);
    assert_eq!(
        to_json_string(&value),
        r#"{"buttons":["Join"],"flags":1,"metadata":{"button_urls":["https://x"]},"name":"Doom","type":0}"#
    );
}

#[test]
fn close_codes_map_to_what_retrying_can_fix() {
    assert_eq!(close_code_outcome(4004), ConnectionOutcome::Fatal);
    assert_eq!(close_code_outcome(4012), ConnectionOutcome::Fatal);
    assert_eq!(close_code_outcome(4007), ConnectionOutcome::Reidentify);
    assert_eq!(close_code_outcome(4000), ConnectionOutcome::Resume);
    assert_eq!(close_code_outcome(1000), ConnectionOutcome::Reidentify);
}

fn resumable() -> SessionState {
    SessionState {
        session_id: Some("abc".to_owned()),
        resume_url: Some("wss://resume.example/?v=8&foo=bar".to_owned()),
        last_sequence: Some(5),
        ..SessionState::default()
    }
}

#[test]
fn a_malformed_frame_resumes_once_then_reidentifies() {
    let mut session = resumable();
    assert_eq!(session.malformed_frame_outcome(), FrameOutcome::Resume);
    assert_eq!(session.malformed_frame_outcome(), FrameOutcome::Reidentify);
    session.record_sequence(6);
    assert_eq!(session.malformed_frame_outcome(), FrameOutcome::Resume);
    assert_eq!(SessionState::default().malformed_frame_outcome(), FrameOutcome::Reidentify);
}

#[test]
fn a_resume_url_keeps_what_discord_served_and_sets_the_protocol() {
    assert_eq!(
        normalized_resume_url("wss://resume.example/?v=8&foo=bar").unwrap(),
        "wss://resume.example/?foo=bar&v=9&encoding=json&compress=zlib-stream"
    );
    assert!(normalized_resume_url("https://resume.example").unwrap_err().contains("scheme must be wss"));
    assert!(normalized_resume_url("wss://user:pw@resume.example").unwrap_err().contains("credentials"));
    assert!(normalized_resume_url("wss://resume.example/#frag").unwrap_err().contains("fragments"));
    assert!(normalized_resume_url("not a url").unwrap_err().starts_with("invalid Gateway resume URL: "));
}

#[test]
fn the_next_connection_resumes_when_it_can() {
    let mut session = resumable();
    let plan = session.next_connection("wss://gateway.discord.gg/?v=9");
    assert_eq!(plan.handshake, GatewayHandshake::Resume { session_id: "abc".to_owned(), sequence: 5 });
    assert!(plan.url.starts_with("wss://resume.example/"));

    let mut partial = SessionState { session_id: Some("abc".to_owned()), ..SessionState::default() };
    let plan = partial.next_connection("wss://gateway.discord.gg/?v=9");
    assert_eq!(plan.handshake, GatewayHandshake::Identify);
    assert!(plan.recovery_warning.is_some());
    assert!(!partial.can_resume());
    assert!(partial.session_id.is_none());
}

#[test]
fn a_failed_resume_is_not_chosen_again() {
    let mut session = resumable();
    assert!(session.abandon_failed_resume(&GatewayHandshake::Resume { session_id: "abc".to_owned(), sequence: 5 }));
    assert!(!session.can_resume());
    assert!(!resumable().abandon_failed_resume(&GatewayHandshake::Identify));
}

#[test]
fn ready_records_the_session_and_a_heartbeat_request_is_answered() {
    let mut session = SessionState::default();
    let mut requests = GuildMemberRequestScheduler::default();
    let mut ack = HeartbeatAckState::default();
    let ready = object(vec![
        ("op", JsonValue::UInt(0)),
        ("s", JsonValue::UInt(3)),
        ("t", text("READY")),
        ("d", object(vec![("session_id", text("sess")), ("resume_gateway_url", text("wss://r.example"))])),
    ]);
    let step = handle_frame(&ready, &mut session, &mut requests, &mut ack, None, None, 0);
    assert_eq!(step.outcome, FrameOutcome::Continue);
    assert_eq!(session.session_id.as_deref(), Some("sess"));
    assert_eq!(session.last_sequence, Some(3));
    assert!(session.established && session.has_received_ready);
    assert!(!step.reidentified);

    let ask = object(vec![("op", JsonValue::UInt(1))]);
    let step = handle_frame(&ask, &mut session, &mut requests, &mut ack, Some(3), None, 0);
    assert_eq!(step.heartbeat.as_deref(), Some(r#"{"d":3,"op":1}"#));
    assert!(ack.awaiting_ack);
    assert!(!ack.mark_heartbeat_sent(), "a heartbeat without an ACK means the connection is dead");

    let invalid = object(vec![("op", JsonValue::UInt(9)), ("d", JsonValue::Bool(false))]);
    let step = handle_frame(&invalid, &mut session, &mut requests, &mut ack, None, None, 0);
    assert_eq!(step.outcome, FrameOutcome::Reidentify);
}

#[test]
fn hello_sets_the_heartbeat_or_is_refused() {
    let hello = object(vec![("op", JsonValue::UInt(10)), ("d", object(vec![("heartbeat_interval", JsonValue::UInt(45000))]))]);
    assert_eq!(hello_heartbeat_interval(&hello), Ok(45000));
    let bare = object(vec![("op", JsonValue::UInt(10))]);
    assert_eq!(hello_heartbeat_interval(&bare), Ok(41250));
    let other = object(vec![("op", JsonValue::UInt(11))]);
    assert_eq!(hello_heartbeat_interval(&other), Err("first frame was not HELLO: 11".to_owned()));
}

#[test]
fn every_requested_user_is_queued_once_in_requests_of_a_hundred() {
    let mut scheduler = GuildMemberRequestScheduler::default();
    let mut ids: Vec<_> = (1..=150u64).map(Id::new).collect();
    ids.push(Id::new(3));
    scheduler.enqueue_by_ids(Id::new(9), ids, false, 0);

    assert_eq!(scheduler.pending.len(), 2);
    let mut all = Vec::new();
    for pending in &scheduler.pending {
        match &pending.request.kind {
            GuildMemberRequestKind::ByIds { user_ids, .. } => {
                assert!(user_ids.len() <= 100);
                all.extend(user_ids.iter().map(|id| id.get()));
            },
            GuildMemberRequestKind::Search { .. } => panic!("no search was asked for"),
        }
    }
    all.sort_unstable();
    assert_eq!(all, (1..=150u64).collect::<Vec<_>>());
    assert_eq!(scheduler.pending[0].request.nonce, "concord-0000000000000001");
}

#[test]
fn a_newer_search_replaces_the_queued_one_and_a_rate_limit_delays_it() {
    let mut scheduler = GuildMemberRequestScheduler::default();
    assert!(scheduler.enqueue_search(Id::new(9), "a".to_owned(), 10, false, "n1".to_owned(), 0));
    assert!(scheduler.enqueue_search(Id::new(9), "ab".to_owned(), 10, false, "n2".to_owned(), 0));
    assert_eq!(scheduler.pending.len(), 1);
    assert_eq!(scheduler.pending[0].request.nonce, "n2");

    let payload = scheduler.start_due(0).expect("the search is due");
    assert!(payload.contains("\"query\":\"ab\""));
    assert!(scheduler.start_due(0).is_none(), "one request in flight at a time");

    scheduler.apply_rate_limit(Id::new(9), Some("n2"), 5000, 0);
    scheduler.complete_send(1);
    assert_eq!(scheduler.pending.len(), 1);
    assert_eq!(scheduler.pending[0].send_at, 5000);
    assert_eq!(scheduler.next_delay(1000), Some(4000));
}

#[test]
fn an_unanswered_request_survives_a_reconnect_and_an_answer_ends_it() {
    let mut scheduler = GuildMemberRequestScheduler::default();
    scheduler.enqueue_by_ids(Id::new(9), vec![Id::new(1)], false, 0);
    scheduler.start_due(0).expect("due");
    scheduler.complete_send(1);
    assert_eq!(scheduler.awaiting_response.len(), 1);

    scheduler.prepare_reconnect(2);
    assert_eq!(scheduler.awaiting_response.len(), 0);
    assert_eq!(scheduler.pending.len(), 1);

    let nonce = scheduler.pending[0].request.nonce.clone();
    scheduler.acknowledge(&nonce);
    assert!(scheduler.pending.is_empty());
}

#[test]
fn the_writer_sends_urgent_first_and_stops_at_the_budget() {
    let mut window = GatewaySendWindow::default();
    assert_eq!(sender_step(1, 1, true, true, &mut window, 0), SenderStep::SendUrgent);
    assert_eq!(sender_step(0, 1, true, true, &mut window, 0), SenderStep::SendNormal);
    assert_eq!(sender_step(0, 0, false, false, &mut window, 0), SenderStep::Stop);
    assert_eq!(sender_step(0, 0, true, false, &mut window, 0), SenderStep::WaitForRequest);
    for _ in 0..118 {
        assert_eq!(sender_step(0, 1, true, true, &mut window, 10), SenderStep::SendNormal);
    }
    assert_eq!(sender_step(0, 1, true, true, &mut window, 20), SenderStep::Wait(59_980));
    assert_eq!(sender_step(0, 1, true, true, &mut window, 60_000), SenderStep::SendNormal);
}

#[test]
fn backoff_doubles_up_to_its_cap_and_resets_after_a_healthy_session() {
    let mut session = resumable();
    match after_connection(ConnectionOutcome::Resume, &mut session, 20_000) {
        ReconnectStep::Retry { clear_published_session, delay_bound_ms, next_backoff_ms } => {
            assert!(!clear_published_session);
            assert_eq!(delay_bound_ms, 20_000);
            assert!(reconnect_delay(delay_bound_ms) <= 20_000);
            assert_eq!(next_backoff_ms, 30_000);
        },
        other => panic!("expected a retry, got {other:?}"),
    }
    session.established = true;
    match after_connection(ConnectionOutcome::Reidentify, &mut session, 30_000) {
        ReconnectStep::Retry { clear_published_session, delay_bound_ms, next_backoff_ms } => {
            assert!(clear_published_session);
            assert_eq!(delay_bound_ms, 500);
            assert_eq!(reconnect_delay(0), 0);
            assert_eq!(next_backoff_ms, 1000);
        },
        other => panic!("expected a retry, got {other:?}"),
    }
    assert!(!session.can_resume());
    assert_eq!(after_connection(ConnectionOutcome::Fatal, &mut session, 500), ReconnectStep::Stop { publish_closed: false });
}

#[test]
fn a_direct_message_is_subscribed_once_per_connection() {
    let mut deduper = SubscriptionDeduper::default();
    let mut resources = GatewaySessionResources { guild_member_requests: GuildMemberRequestScheduler::default(), last_presence: None };
    let first = dispatch_command(GatewayCommand::SubscribeDirectMessage { channel_id: Id::new(5) }, &mut deduper, &mut resources, 0);
    assert_eq!(first, CommandDispatch::Send { payload: r#"{"d":{"channel_id":"5"},"op":13}"#.to_owned(), urgent: false });
    let second = dispatch_command(GatewayCommand::SubscribeDirectMessage { channel_id: Id::new(5) }, &mut deduper, &mut resources, 0);
    assert_eq!(second, CommandDispatch::Nothing);
    let voice = dispatch_command(
        GatewayCommand::UpdateVoiceState { guild_id: None, channel_id: None, self_mute: false, self_deaf: false },
        &mut deduper,
        &mut resources,
        0,
    );
    assert!(matches!(voice, CommandDispatch::Send { urgent: true, .. }));
}

#[test]
fn a_payload_split_across_messages_is_inflated_once_its_marker_arrives() {
    let mut encoder = flate2::write::ZlibEncoder::new(Vec::new(), flate2::Compression::default());
    encoder.write_all(br#"{"op":10}"#).unwrap();
    encoder.flush().unwrap();
    let compressed = encoder.get_ref().clone();
    assert!(compressed.ends_with(&[0, 0, 0xff, 0xff]));

    let mut decoder = GatewayZlibDecoder::new();
    let (first, second) = compressed.split_at(3);
    assert_eq!(decoder.decode(first), Ok(None));
    assert_eq!(decoder.decode(second), Ok(Some(r#"{"op":10}"#.to_owned())));
    assert!(decoder.pending.is_empty());
}
