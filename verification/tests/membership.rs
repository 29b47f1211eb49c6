use concord::ids::Id;
use concord::json::JsonValue;
use concord::rest::membership::{
    nearest_prune_days, prune_days_list, GuildWidget, WelcomeChannel, WelcomeScreenEdit, MAX_WELCOME_CHANNELS,
    MAX_WELCOME_DESCRIPTION_CHARS,
};

#[test]
fn prune_days_are_snapped_to_something_discord_accepts() {
    assert_eq!(nearest_prune_days(0), 1);
    assert_eq!(nearest_prune_days(10), 7);
    assert_eq!(nearest_prune_days(1000), 90);

    for accepted in prune_days_list() {
        assert_eq!(nearest_prune_days(accepted), accepted);
    }
}

#[test]
fn an_empty_welcome_edit_is_not_sent() {
    assert!(WelcomeScreenEdit::default().is_empty());
    assert!(!WelcomeScreenEdit { enabled: Some(true), ..WelcomeScreenEdit::default() }.is_empty());
}

#[test]
fn clearing_a_description_is_distinct_from_leaving_it() {
    let cleared = WelcomeScreenEdit { description: Some(None), ..WelcomeScreenEdit::default() };
    assert_eq!(cleared.to_body().get("description"), Some(&JsonValue::Null));

    let untouched = WelcomeScreenEdit { enabled: Some(true), ..WelcomeScreenEdit::default() };
    assert!(untouched.to_body().get("description").is_none());
}

#[test]
fn a_description_is_truncated_on_character_boundaries() {
    let edit = WelcomeScreenEdit { description: Some(Some("é".repeat(400))), ..WelcomeScreenEdit::default() };

    let description = edit.to_body().get("description").unwrap().as_str().unwrap().to_owned();
    assert_eq!(description.chars().count(), MAX_WELCOME_DESCRIPTION_CHARS);
}

#[test]
fn more_channels_than_discord_allows_are_dropped_rather_than_failing_the_edit() {
    let edit = WelcomeScreenEdit {
        channels: Some(
            (1..=9)
                .map(|index| WelcomeChannel { channel_id: Id::new(index), description: String::new(), emoji_name: None })
                .collect(),
        ),
        ..WelcomeScreenEdit::default()
    };

    let body = edit.to_body();
    let channels = body.get("welcome_channels").unwrap().as_array().expect("channels should be an array").len();
    assert_eq!(channels, MAX_WELCOME_CHANNELS);
}

#[test]
fn a_widget_with_no_channel_sends_null_rather_than_omitting_it() {
    let widget = GuildWidget { enabled: true, channel_id: None };
    assert_eq!(widget.to_body().get("channel_id"), Some(&JsonValue::Null));
}
