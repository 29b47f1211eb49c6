use concord::rest::moderation::{ban_body, ban_delete_seconds, timeout_body, timeout_body_at, MAX_BAN_DELETE_MESSAGE_SECONDS};
use concord::json::to_json_string;
use concord::json::JsonValue;

#[test]
fn ban_history_purge_is_clamped_to_what_discord_accepts() {
    assert_eq!(ban_delete_seconds(u32::MAX), MAX_BAN_DELETE_MESSAGE_SECONDS);
    assert_eq!(ban_delete_seconds(MAX_BAN_DELETE_MESSAGE_SECONDS + 1), MAX_BAN_DELETE_MESSAGE_SECONDS);

    assert_eq!(ban_delete_seconds(0), 0);
    assert_eq!(ban_delete_seconds(3_600), 3_600);

    assert_eq!(MAX_BAN_DELETE_MESSAGE_SECONDS, 7 * 24 * 60 * 60);
}

#[test]
fn a_ban_body_carries_the_clamped_purge() {
    let body = ban_body(u32::MAX);
    assert_eq!(body.get("delete_message_seconds"), Some(&JsonValue::UInt(MAX_BAN_DELETE_MESSAGE_SECONDS as u64)));
}

#[test]
fn a_timeout_ends_its_minutes_after_the_clock_reading() {
    let body = timeout_body_at(Some(10), 1_700_000_000, 0).expect("in range");
    assert_eq!(to_json_string(&body), r#"{"communication_disabled_until":"2023-11-14T22:23:20+00:00"}"#);
    let cleared = timeout_body_at(None, 1_700_000_000, 0).expect("always written");
    assert_eq!(to_json_string(&cleared), r#"{"communication_disabled_until":null}"#);
}

#[test]
fn a_timeout_past_what_the_clock_can_hold_is_refused() {
    assert!(timeout_body_at(Some(1), i64::MAX - 10, 0).is_none());
    assert!(timeout_body_at(Some(1), 1_000_000_000_000_000, 0).is_none());
}

#[test]
fn a_timeout_from_now_names_an_instant() {
    let body = timeout_body(Some(5)).expect("now is in range");
    let text = to_json_string(&body);
    assert!(text.starts_with(r#"{"communication_disabled_until":"20"#));
    assert!(text.ends_with(r#"+00:00"}"#));
}
