use concord::json::to_json_string;
use concord::rest::guild_management::{
    clamp_invite_max_age, clamp_invite_max_uses, create_emoji_body, emoji_name_from_filename, EmojiUploadProblem, is_valid_emoji_name, AuditLogAction,
    MAX_INVITE_MAX_AGE_SECONDS, MAX_INVITE_MAX_USES,
};

#[test]
fn emoji_names_discord_would_reject_are_refused_here() {
    assert!(is_valid_emoji_name("ferris"));
    assert!(is_valid_emoji_name("party_parrot"));
    assert!(is_valid_emoji_name("a1"));

    assert!(!is_valid_emoji_name("a"));
    assert!(!is_valid_emoji_name(""));
    assert!(!is_valid_emoji_name(&"a".repeat(33)));
    assert!(!is_valid_emoji_name("party parrot"));
    assert!(!is_valid_emoji_name("ferris!"));
    assert!(!is_valid_emoji_name(":ferris:"));
}

#[test]
fn an_emoji_name_is_derived_from_the_filename() {
    assert_eq!(emoji_name_from_filename("ferris.png"), Some("ferris".to_owned()));
    assert_eq!(emoji_name_from_filename("party parrot.gif"), Some("party_parrot".to_owned()));
    assert_eq!(emoji_name_from_filename("/home/blu/Pictures/my-emoji.webp"), Some("my_emoji".to_owned()));

    assert_eq!(emoji_name_from_filename("!.png"), None);
    assert_eq!(emoji_name_from_filename("a.png"), None);
    assert_eq!(emoji_name_from_filename(""), None);
}

#[test]
fn invite_limits_are_clamped_to_what_discord_accepts() {
    assert_eq!(clamp_invite_max_age(MAX_INVITE_MAX_AGE_SECONDS + 1), MAX_INVITE_MAX_AGE_SECONDS);
    assert_eq!(clamp_invite_max_uses(u32::MAX), MAX_INVITE_MAX_USES);

    assert_eq!(clamp_invite_max_age(0), 0);
    assert_eq!(clamp_invite_max_uses(0), 0);

    assert_eq!(clamp_invite_max_age(3600), 3600);
    assert_eq!(clamp_invite_max_uses(5), 5);
}

#[test]
fn known_audit_actions_are_named_and_unknown_ones_survive() {
    assert_eq!(AuditLogAction::from_code(20), AuditLogAction::MemberKick);
    assert_eq!(AuditLogAction::from_code(22), AuditLogAction::MemberBanAdd);

    let unknown = AuditLogAction::from_code(999);
    assert_eq!(unknown, AuditLogAction::Other(999));
    assert!(unknown.label().contains("999"));
}

#[test]
fn every_named_action_says_something_useful() {
    for code in [1, 10, 11, 12, 20, 22, 23, 24, 25, 30, 31, 32, 40, 42, 60, 61, 62, 72] {
        let label = AuditLogAction::from_code(code);
        assert!(!matches!(label, AuditLogAction::Other(_)), "action {code} should be named");
        assert!(!label.label().is_empty());
    }
}

#[test]
fn an_emoji_is_refused_for_its_name_before_its_size() {
    let big = vec![0u8; 300_000];
    assert_eq!(create_emoji_body("no spaces", "image/png", &big), Err(EmojiUploadProblem::InvalidName));
    assert_eq!(create_emoji_body("ferris", "image/png", &big), Err(EmojiUploadProblem::TooLarge));
    let body = create_emoji_body("ferris", "image/png", b"hi").expect("a small emoji with a good name");
    assert_eq!(to_json_string(&body), r#"{"image":"data:image/png;base64,aGk=","name":"ferris","roles":[]}"#);
}
