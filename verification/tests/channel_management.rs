use concord::ids::Id;
use concord::json::JsonValue;
use concord::rest::channel_management::{
    ChannelEdit, NewChannelKind, MAX_CHANNEL_NAME_CHARS, MAX_SLOWMODE_SECONDS, MAX_VOICE_USER_LIMIT,
};

#[test]
fn channel_management_an_empty_edit_is_not_sent() {
    assert!(ChannelEdit::default().is_empty());
    assert!(!ChannelEdit { name: Some("general".to_owned()), ..ChannelEdit::default() }.is_empty());
}

#[test]
fn clearing_a_topic_is_distinct_from_leaving_it() {
    let cleared = ChannelEdit { topic: Some(None), ..ChannelEdit::default() };
    assert_eq!(cleared.to_body().get("topic"), Some(&JsonValue::Null));

    let untouched = ChannelEdit { name: Some("general".to_owned()), ..ChannelEdit::default() };
    assert!(untouched.to_body().get("topic").is_none());
}

#[test]
fn limits_are_clamped_rather_than_rejected_by_discord() {
    let edit = ChannelEdit { slowmode_seconds: Some(u32::MAX), user_limit: Some(500), ..ChannelEdit::default() };
    let body = edit.to_body();

    assert_eq!(body.get("rate_limit_per_user"), Some(&JsonValue::UInt(MAX_SLOWMODE_SECONDS as u64)));
    assert_eq!(body.get("user_limit"), Some(&JsonValue::UInt(MAX_VOICE_USER_LIMIT as u64)));
}

#[test]
fn channel_management_a_name_is_truncated_on_character_boundaries() {
    let edit = ChannelEdit { name: Some("é".repeat(200)), ..ChannelEdit::default() };

    let name = edit.to_body().get("name").unwrap().as_str().unwrap().to_owned();
    assert_eq!(name.chars().count(), MAX_CHANNEL_NAME_CHARS);
}

#[test]
fn moving_a_channel_out_of_a_category_is_distinct_from_leaving_it() {
    let out = ChannelEdit { parent_id: Some(None), ..ChannelEdit::default() };
    assert_eq!(out.to_body().get("parent_id"), Some(&JsonValue::Null));

    let into = ChannelEdit { parent_id: Some(Some(Id::new(42))), ..ChannelEdit::default() };
    assert_eq!(into.to_body().get("parent_id"), Some(&JsonValue::Str("42".to_owned())));
}

#[test]
fn every_creatable_kind_has_a_distinct_code() {
    let all = NewChannelKind::all();
    let mut codes: Vec<u8> = all.iter().map(|kind| kind.code()).collect();
    codes.sort_unstable();
    codes.dedup();

    assert_eq!(codes.len(), all.len());
}

#[test]
fn only_the_kinds_that_have_one_offer_a_topic_or_bitrate() {
    assert!(NewChannelKind::Text.has_topic());
    assert!(!NewChannelKind::Voice.has_topic());
    assert!(!NewChannelKind::Category.has_topic());

    assert!(NewChannelKind::Voice.is_voice());
    assert!(NewChannelKind::Stage.is_voice());
    assert!(!NewChannelKind::Text.is_voice());
}
