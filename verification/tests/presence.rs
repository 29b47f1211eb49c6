use concord::presence::{ActivityEmoji, ActivityInfo, ActivityKind};

fn custom(state: Option<&str>, emoji: Option<&str>) -> ActivityInfo {
    ActivityInfo {
        kind: ActivityKind::Custom,
        name: "Custom Status".to_owned(),
        state: state.map(str::to_owned),
        emoji: emoji.map(|name| ActivityEmoji { name: name.to_owned(), id: None, animated: false }),
        ..ActivityInfo::playing("")
    }
}

#[test]
fn a_custom_status_shows_its_own_text() {
    let activity = custom(Some("out for lunch"), None);
    assert_eq!(activity.display_line().as_deref(), Some("out for lunch"));
}

#[test]
fn a_custom_status_keeps_its_emoji() {
    let activity = custom(Some("busy"), Some(":coffee:"));
    assert_eq!(activity.display_line().as_deref(), Some(":coffee: busy"));
}

#[test]
fn an_empty_custom_status_shows_nothing() {
    assert_eq!(custom(None, None).display_line(), None);
    assert_eq!(custom(Some("   "), None).display_line(), None);
}

#[test]
fn listening_names_the_track_rather_than_the_app() {
    let activity = ActivityInfo {
        kind: ActivityKind::Listening,
        name: "Spotify".to_owned(),
        details: Some("Windowlicker".to_owned()),
        state: Some("Aphex Twin".to_owned()),
        ..ActivityInfo::playing("")
    };

    assert_eq!(activity.display_line().as_deref(), Some("Listening to Spotify - Windowlicker by Aphex Twin"));
}

#[test]
fn each_kind_reads_as_a_sentence() {
    for (kind, expected) in [
        (ActivityKind::Playing, "Playing Doom"),
        (ActivityKind::Streaming, "Streaming Doom"),
        (ActivityKind::Watching, "Watching Doom"),
        (ActivityKind::Competing, "Competing in Doom"),
    ] {
        let activity = ActivityInfo { kind, ..ActivityInfo::playing("Doom") };
        assert_eq!(activity.display_line().as_deref(), Some(expected));
    }
}

#[test]
fn an_unknown_kind_shows_the_name_without_inventing_a_verb() {
    let activity = ActivityInfo { kind: ActivityKind::Unknown(99), ..ActivityInfo::playing("Something") };
    assert_eq!(activity.display_line().as_deref(), Some("Something"));
}

#[test]
fn a_nameless_activity_shows_nothing() {
    let activity = ActivityInfo::playing("   ");
    assert_eq!(activity.display_line(), None);
}

#[test]
fn a_custom_emoji_image_is_served_from_the_cdn() {
    let emoji = ActivityEmoji { name: "wave".to_owned(), id: Some(concord::ids::Id::new(42)), animated: true };
    assert_eq!(emoji.image_url().as_deref(), Some("https://cdn.discordapp.com/emojis/42.gif"));
}
