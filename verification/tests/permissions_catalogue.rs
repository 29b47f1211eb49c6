use concord::permissions_catalogue::{all, by_name, with};

#[test]
fn every_permission_has_a_distinct_bit() {
    let all = all();
    let mut bits: Vec<u8> = all.iter().map(|permission| permission.bit).collect();
    bits.sort_unstable();
    bits.dedup();

    assert_eq!(bits.len(), all.len());
}

#[test]
fn every_permission_has_a_distinct_name() {
    let all = all();
    let mut names: Vec<&str> = all.iter().map(|permission| permission.name).collect();
    names.sort_unstable();
    names.dedup();

    assert_eq!(names.len(), all.len());
}

#[test]
fn the_catalogue_agrees_with_the_constants_the_client_checks() {
    for (name, mask) in [
        ("ADMINISTRATOR", 0x0000_0000_0000_0008u64),
        ("KICK_MEMBERS", 0x0000_0000_0000_0002),
        ("BAN_MEMBERS", 0x0000_0000_0000_0004),
        ("MANAGE_CHANNELS", 0x0000_0000_0000_0010),
        ("MANAGE_GUILD", 0x0000_0000_0000_0020),
        ("VIEW_CHANNEL", 0x0000_0000_0000_0400),
        ("SEND_MESSAGES", 0x0000_0000_0000_0800),
        ("MANAGE_MESSAGES", 0x0000_0000_0000_2000),
        ("MANAGE_ROLES", 0x0000_0000_1000_0000),
        ("MODERATE_MEMBERS", 0x0000_0100_0000_0000),
    ] {
        let permission = by_name(name).unwrap_or_else(|| panic!("{name} should exist"));
        assert_eq!(permission.mask(), mask, "{name} has the wrong bit");
    }
}

#[test]
fn setting_and_clearing_are_inverses() {
    let manage_roles = by_name("MANAGE_ROLES").expect("should exist");
    let granted = with(0, manage_roles, true);

    assert!(manage_roles.is_set(granted));
    assert!(!manage_roles.is_set(with(granted, manage_roles, false)));
    let kick = by_name("KICK_MEMBERS").expect("should exist");
    let both = with(granted, kick, true);
    assert!(kick.is_set(with(both, manage_roles, false)));
}

const CHECKED: &[(&str, u64)] = &[
    ("VIEW_CHANNEL", 0x0000_0000_0000_0400),
    ("MANAGE_CHANNELS", 0x0000_0000_0000_0010),
    ("MANAGE_GUILD", 0x0000_0000_0000_0020),
    ("STREAM", 0x0000_0000_0000_0200),
    ("SEND_MESSAGES", 0x0000_0000_0000_0800),
    ("SEND_TTS_MESSAGES", 0x0000_0000_0000_1000),
    ("MANAGE_MESSAGES", 0x0000_0000_0000_2000),
    ("ATTACH_FILES", 0x0000_0000_0000_8000),
    ("READ_MESSAGE_HISTORY", 0x0000_0000_0001_0000),
    ("CONNECT", 0x0000_0000_0010_0000),
    ("SPEAK", 0x0000_0000_0020_0000),
    ("USE_VAD", 0x0000_0000_0200_0000),
    ("ADMINISTRATOR", 0x0000_0000_0000_0008),
    ("ADD_REACTIONS", 0x0000_0000_0000_0040),
    ("USE_EXTERNAL_EMOJIS", 0x0000_0000_0004_0000),
    ("USE_APPLICATION_COMMANDS", 0x0000_0000_8000_0000),
    ("MANAGE_THREADS", 0x0000_0004_0000_0000),
    ("SEND_MESSAGES_IN_THREADS", 0x0000_0040_0000_0000),
    ("PIN_MESSAGES", 0x0008_0000_0000_0000),
    ("BYPASS_SLOWMODE", 0x0010_0000_0000_0000),
    ("KICK_MEMBERS", 0x0000_0000_0000_0002),
    ("BAN_MEMBERS", 0x0000_0000_0000_0004),
    ("MANAGE_ROLES", 0x0000_0000_1000_0000),
    ("MODERATE_MEMBERS", 0x0000_0100_0000_0000),
    ("CREATE_INSTANT_INVITE", 0x0000_0000_0000_0001),
    ("VIEW_AUDIT_LOG", 0x0000_0000_0000_0080),
    ("MANAGE_EXPRESSIONS", 0x0000_0000_4000_0000),
];

#[test]
fn every_constant_the_client_checks_matches_discords_table() {
    for (name, mask) in CHECKED {
        let permission = by_name(name).unwrap_or_else(|| panic!("{name} is not in Discord's table"));
        assert_eq!(permission.mask(), *mask, "{name} disagrees with Discord's table");
    }
}
