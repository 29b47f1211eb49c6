use concord::ids::Id;
use concord::json::to_json_string;
use concord::message::StickerFormat;
use concord::rest::soundboard::{is_valid_sound_name, send_sound_body, sound_label, sound_url};
use concord::rest::stage::{
    stage_action_for, stage_topic_problem, start_stage_body, StageAction, StagePrivacy, MAX_STAGE_TOPIC_CHARS,
};
use concord::rest::stickers::{
    check_sticker_upload, sticker_content_type, sticker_name_problem, sticker_upload, GuildSticker,
    MAX_STICKER_NAME_CHARS,
};

#[test]
fn a_stage_needs_a_topic_and_discord_caps_its_length() {
    assert_eq!(stage_topic_problem("Book club"), None);
    assert!(stage_topic_problem("").is_some());
    assert!(stage_topic_problem("   ").is_some());
    assert!(stage_topic_problem(&"a".repeat(MAX_STAGE_TOPIC_CHARS + 1)).is_some());
}

#[test]
fn topic_length_is_counted_in_characters_not_bytes() {
    assert_eq!(stage_topic_problem(&"é".repeat(MAX_STAGE_TOPIC_CHARS)), None);
    assert!(stage_topic_problem(&"é".repeat(MAX_STAGE_TOPIC_CHARS + 1)).is_some());
}

#[test]
fn the_endpoint_matches_whether_a_stage_is_already_running() {
    assert_eq!(stage_action_for("Book club", false), StageAction::Start);
    assert_eq!(stage_action_for("Book club", true), StageAction::ChangeTopic);
}

#[test]
fn an_emptied_topic_ends_the_stage_whether_or_not_it_was_running() {
    assert_eq!(stage_action_for("", true), StageAction::End);
    assert_eq!(stage_action_for("   ", true), StageAction::End);
    assert_eq!(stage_action_for("", false), StageAction::End);
}

#[test]
fn the_only_privacy_level_is_the_one_discord_still_accepts() {
    assert_eq!(StagePrivacy::GuildOnly.code(), 2);
}

#[test]
fn a_start_body_cuts_the_topic_to_the_cap() {
    let body = start_stage_body(Id::new(5), &"é".repeat(MAX_STAGE_TOPIC_CHARS + 10), StagePrivacy::GuildOnly);
    let topic = body.get("topic").unwrap().as_str().unwrap().to_owned();
    assert_eq!(topic.chars().count(), MAX_STAGE_TOPIC_CHARS);
    assert!(to_json_string(&body).starts_with("{\"channel_id\":\"5\",\"privacy_level\":2,"));
}

#[test]
fn sound_names_discord_would_reject_are_refused_here() {
    assert!(is_valid_sound_name("ok"));
    assert!(is_valid_sound_name("airhorn"));

    assert!(!is_valid_sound_name("a"));
    assert!(!is_valid_sound_name(""));
    assert!(!is_valid_sound_name("   "));
    assert!(!is_valid_sound_name(&"a".repeat(33)));
}

#[test]
fn a_default_sound_names_no_guild() {
    assert_eq!(to_json_string(&send_sound_body(12345, None)), r#"{"sound_id":"12345"}"#);
    assert_eq!(
        to_json_string(&send_sound_body(12345, Some(Id::new(9)))),
        r#"{"sound_id":"12345","source_guild_id":"9"}"#
    );
}

fn sticker(available: bool, format: StickerFormat) -> GuildSticker {
    GuildSticker { id: 1, name: "wave".to_owned(), description: None, tags: "wave".to_owned(), format, available }
}

#[test]
fn a_sticker_the_server_can_no_longer_send_says_why() {
    assert!(sticker(false, StickerFormat::Png).summary().contains("lost boosts"));
    assert!(!sticker(true, StickerFormat::Png).summary().contains("lost boosts"));
}

#[test]
fn names_discord_would_reject_are_refused_here() {
    assert_eq!(sticker_name_problem("wave"), None);
    assert!(sticker_name_problem("a").is_some());
    assert!(sticker_name_problem(" ").is_some());
    assert!(sticker_name_problem(&"a".repeat(MAX_STICKER_NAME_CHARS + 1)).is_some());
}

#[test]
fn name_length_is_counted_in_characters_not_bytes() {
    assert_eq!(sticker_name_problem(&"é".repeat(MAX_STICKER_NAME_CHARS)), None);
    assert!(sticker_name_problem(&"é".repeat(MAX_STICKER_NAME_CHARS + 1)).is_some());
}

#[test]
fn every_format_discord_accepts_has_a_content_type() {
    assert_eq!(sticker_content_type("a.png"), Some("image/png"));
    assert_eq!(sticker_content_type("a.APNG"), Some("image/png"));
    assert_eq!(sticker_content_type("a.gif"), Some("image/gif"));
    assert_eq!(sticker_content_type("a.json"), Some("application/json"));
}

#[test]
fn anything_else_is_refused_rather_than_sent_as_a_guess() {
    assert_eq!(sticker_content_type("a.jpg"), None);
    assert_eq!(sticker_content_type("a.webp"), None);
    assert_eq!(sticker_content_type("noextension"), None);
}

#[test]
fn a_sticker_upload_is_checked_before_and_after_reading() {
    assert_eq!(check_sticker_upload("wave", "/tmp/wave.png"), Ok("image/png"));
    assert_eq!(check_sticker_upload("w", "/tmp/wave.png"), Err("a sticker needs a name of at least two characters".to_owned()));
    assert!(check_sticker_upload("wave", "/tmp/wave.jpg").is_err());

    let upload = sticker_upload("wave", "hi", "/tmp/pics/wave.png", "image/png", 10).unwrap();
    assert_eq!(upload.file_name, "wave.png");
    assert_eq!(upload.description, "");
    assert!(sticker_upload("wave", "hi", "/tmp/wave.png", "image/png", 512_001).is_err());
}

#[test]
fn a_sound_url_names_the_sound_on_the_cdn() {
    assert_eq!(sound_url(42), "https://cdn.discordapp.com/soundboard-sounds/42");
}

#[test]
fn a_sound_button_prefers_its_emoji_to_its_name() {
    assert_eq!(sound_label(Some("🔔"), "bell"), "🔔");
    assert_eq!(sound_label(None, "bell"), "bell");
}
