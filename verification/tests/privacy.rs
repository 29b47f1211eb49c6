use concord::json::JsonValue;
use concord::rest::privacy::{DmScanLevel, FriendSources, PrivacyEdit, PrivacySetting, PrivacyState};

#[test]
fn privacy_an_empty_edit_is_not_sent() {
    assert!(PrivacyEdit::default().is_empty());
    assert!(!PrivacyEdit { default_guilds_restricted: Some(true), ..PrivacyEdit::default() }.is_empty());
}

#[test]
fn only_the_changed_fields_are_sent() {
    let edit = PrivacyEdit { dm_scan_level: Some(DmScanLevel::Everyone), ..PrivacyEdit::default() };
    let body = edit.to_body();

    assert_eq!(body.get("explicit_content_filter"), Some(&JsonValue::UInt(2)));
    assert!(body.get("friend_source_flags").is_none());
    assert!(body.get("default_guilds_restricted").is_none());
}

#[test]
fn every_scan_level_round_trips_through_its_code() {
    for level in DmScanLevel::all() {
        assert_eq!(DmScanLevel::from_code(u64::from(level.code())), level);
    }
}

#[test]
fn cycling_scan_levels_reaches_every_one_and_returns() {
    let mut level = DmScanLevel::Off;
    let mut seen = Vec::new();
    for _ in 0..DmScanLevel::all().len() {
        seen.push(level);
        level = level.next();
    }

    assert_eq!(level, DmScanLevel::Off, "the cycle does not return");
    for expected in DmScanLevel::all() {
        assert!(seen.contains(&expected), "{expected:?} is unreachable");
    }
}

#[test]
fn friend_sources_send_only_the_flags_that_are_set() {
    let sources = FriendSources { everyone: false, mutual_friends: true, mutual_guilds: false };
    let body = sources.to_body();

    assert_eq!(body.get("mutual_friends"), Some(&JsonValue::Bool(true)));
    assert!(body.get("all").is_none());
    assert!(body.get("mutual_guilds").is_none());
}

#[test]
fn no_source_at_all_is_a_real_state_rather_than_an_empty_form() {
    assert!(FriendSources::default().nobody());
    assert!(!FriendSources { mutual_guilds: true, ..FriendSources::default() }.nobody());
}

#[test]
fn a_setting_that_never_arrived_is_unknown_rather_than_off() {
    let state = PrivacyState::default();
    for setting in PrivacySetting::all() {
        assert_eq!(setting.is_on(&state), None, "{:?} reports a value it was never told", setting);
    }
    assert_eq!(PrivacySetting::DmScanning.value(&state), Some("Unknown"));
}

#[test]
fn the_new_server_row_is_the_permission_not_the_restriction() {
    let restricted = PrivacyState { default_guilds_restricted: Some(true), ..PrivacyState::default() };
    assert_eq!(PrivacySetting::NewGuildDirectMessages.is_on(&restricted), Some(false));
    assert_eq!(PrivacySetting::NewGuildDirectMessages.toggled(&restricted).default_guilds_restricted, Some(false));
}

#[test]
fn toggling_one_friend_source_carries_the_other_two() {
    let state = PrivacyState {
        friend_sources: Some(FriendSources { everyone: false, mutual_friends: true, mutual_guilds: true }),
        ..PrivacyState::default()
    };

    assert_eq!(
        PrivacySetting::FriendsEveryone.toggled(&state).friend_sources,
        Some(FriendSources { everyone: true, mutual_friends: true, mutual_guilds: true })
    );
}

#[test]
fn every_row_edits_exactly_one_field() {
    let state = PrivacyState::default();
    for setting in PrivacySetting::all() {
        let edit = setting.toggled(&state);
        let named = u8::from(edit.dm_scan_level.is_some())
            + u8::from(edit.default_guilds_restricted.is_some())
            + u8::from(edit.friend_sources.is_some());
        assert_eq!(named, 1, "{setting:?} names {named} fields");
    }
}

#[test]
fn every_row_has_a_distinct_label() {
    let mut labels: Vec<&str> = PrivacySetting::all().iter().map(|s| s.label()).collect();
    labels.sort_unstable();
    let count = labels.len();
    labels.dedup();
    assert_eq!(labels.len(), count);
}
