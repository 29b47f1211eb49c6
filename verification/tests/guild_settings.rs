use concord::json::{to_json_string, JsonValue};
use concord::rest::guild_settings::{
    afk_timeouts_list, guild_icon_body, is_valid_guild_name, nearest_afk_timeout, verification_code, verification_label,
    DefaultNotifications, ExplicitContentFilter, GuildEdit, GuildVerificationLevel as Level,
};

#[test]
fn guild_settings_an_empty_edit_is_not_sent() {
    assert!(GuildEdit::default().is_empty());
    assert!(!GuildEdit { name: Some("guild".to_owned()), ..GuildEdit::default() }.is_empty());
}

#[test]
fn an_afk_timeout_is_snapped_to_one_discord_accepts() {
    assert_eq!(nearest_afk_timeout(0), 60);
    assert_eq!(nearest_afk_timeout(200), 300);
    assert_eq!(nearest_afk_timeout(100_000), 3600);

    for accepted in afk_timeouts_list() {
        assert_eq!(nearest_afk_timeout(accepted), accepted);
    }
}

#[test]
fn clearing_a_channel_is_distinct_from_leaving_it() {
    let cleared = GuildEdit { afk_channel_id: Some(None), ..GuildEdit::default() };
    assert_eq!(cleared.to_body().get("afk_channel_id"), Some(&JsonValue::Null));

    let untouched = GuildEdit { name: Some("guild".to_owned()), ..GuildEdit::default() };
    assert!(untouched.to_body().get("afk_channel_id").is_none());
}

#[test]
fn every_level_round_trips_through_its_code() {
    for level in [Level::NotRequired, Level::Low, Level::Medium, Level::High, Level::VeryHigh] {
        assert_eq!(Level::from_value(verification_code(level)), level);
    }
    assert_eq!(verification_code(Level::Unknown(9)), 9);
    assert_eq!(Level::from_value(9), Level::Unknown(9));
    assert!(verification_label(Level::Unknown(9)).contains('9'));

    for notifications in DefaultNotifications::all() {
        assert_eq!(DefaultNotifications::from_code(u64::from(notifications.code())), notifications);
    }
    for filter in ExplicitContentFilter::all() {
        assert_eq!(ExplicitContentFilter::from_code(u64::from(filter.code())), filter);
    }
}

#[test]
fn an_unknown_filter_code_falls_back_rather_than_panicking() {
    assert_eq!(ExplicitContentFilter::from_code(99), ExplicitContentFilter::Disabled);
}

#[test]
fn guild_names_discord_would_reject_are_refused_here() {
    assert!(is_valid_guild_name("ab"));
    assert!(!is_valid_guild_name("a"));
    assert!(!is_valid_guild_name("   "));
    assert!(!is_valid_guild_name(&"a".repeat(101)));
}

#[test]
fn a_guild_icon_is_sent_as_a_base64_data_uri() {
    let body = guild_icon_body("image/png", b"hi!");
    assert_eq!(to_json_string(&body), r#"{"icon":"data:image/png;base64,aGkh"}"#);
    let padded = guild_icon_body("image/gif", b"hi");
    assert_eq!(to_json_string(&padded), r#"{"icon":"data:image/gif;base64,aGk="}"#);
}
