use concord::gateway::parser::streams::{parse_stream_create, parse_stream_delete, parse_stream_server_update};
use concord::gateway::parser::voice::{
    parse_call, parse_call_delete, parse_guild_voice_states, parse_sound_effect, parse_voice_server_update,
    parse_voice_state_update,
};
use concord::gateway::parser::parse_id;
use concord::ids::marker::ChannelMarker;
use concord::ids::Id;
use concord::json::JsonValue;

fn object(fields: Vec<(&str, JsonValue)>) -> JsonValue {
    JsonValue::Object(fields.into_iter().map(|(k, v)| (k.to_owned(), v)).collect())
}

fn text(s: &str) -> JsonValue {
    JsonValue::Str(s.to_owned())
}

#[test]
fn an_id_is_read_from_a_string_or_a_number_but_never_zero() {
    assert_eq!(parse_id::<ChannelMarker>(&text("42")), Some(Id::new(42)));
    assert_eq!(parse_id::<ChannelMarker>(&JsonValue::UInt(42)), Some(Id::new(42)));
    assert_eq!(parse_id::<ChannelMarker>(&text("0")), None);
    assert_eq!(parse_id::<ChannelMarker>(&JsonValue::UInt(0)), None);
    assert_eq!(parse_id::<ChannelMarker>(&text("forty-two")), None);
    assert_eq!(parse_id::<ChannelMarker>(&JsonValue::Null), None);
    assert_eq!(parse_id::<ChannelMarker>(&JsonValue::Int(-3)), None);
}

#[test]
fn a_stream_start_needs_its_key_server_and_channel() {
    let data = object(vec![
        ("stream_key", text("guild:1:2:3")),
        ("rtc_server_id", text("99")),
        ("rtc_channel_id", text("2")),
    ]);
    let stream = parse_stream_create(&data).expect("a complete stream start parses");
    assert_eq!(stream.stream_key, "guild:1:2:3");
    assert_eq!(stream.rtc_server_id, "99");
    assert_eq!(stream.rtc_channel_id, Id::new(2));

    let no_server = object(vec![
        ("stream_key", text("guild:1:2:3")),
        ("rtc_server_id", text("")),
        ("rtc_channel_id", text("2")),
    ]);
    assert!(parse_stream_create(&no_server).is_none());
}

#[test]
fn a_stream_server_without_an_endpoint_is_still_a_server() {
    let data = object(vec![
        ("stream_key", text("call:5:6")),
        ("endpoint", JsonValue::Null),
        ("token", text("secret-token")),
    ]);
    let server = parse_stream_server_update(&data).expect("key and token are enough");
    assert_eq!(server.endpoint, None);
    assert_eq!(server.token, "secret-token");

    let with_endpoint = object(vec![
        ("stream_key", text("call:5:6")),
        ("endpoint", text("media.discord.gg")),
        ("token", text("secret-token")),
    ]);
    assert_eq!(
        parse_stream_server_update(&with_endpoint).and_then(|server| server.endpoint),
        Some("media.discord.gg".to_owned())
    );

    let no_token = object(vec![("stream_key", text("call:5:6"))]);
    assert!(parse_stream_server_update(&no_token).is_none());
}

#[test]
fn a_stream_end_defaults_its_reason_and_flag() {
    let data = object(vec![("stream_key", text("guild:1:2:3"))]);
    let end = parse_stream_delete(&data).expect("the key is enough");
    assert_eq!(end.reason, "");
    assert!(!end.unavailable);

    let data = object(vec![
        ("stream_key", text("guild:1:2:3")),
        ("reason", text("user_requested")),
        ("unavailable", JsonValue::Bool(true)),
    ]);
    let end = parse_stream_delete(&data).expect("should parse");
    assert_eq!(end.reason, "user_requested");
    assert!(end.unavailable);

    assert!(parse_stream_delete(&object(vec![("reason", text("x"))])).is_none());
}

#[test]
fn a_voice_state_reads_its_user_from_the_member_when_it_must() {
    let data = object(vec![
        ("guild_id", text("1")),
        ("channel_id", text("2")),
        ("member", object(vec![("user", object(vec![("id", text("3"))]))])),
        ("session_id", text("abc")),
        ("self_mute", JsonValue::Bool(true)),
    ]);
    let state = parse_voice_state_update(&data).expect("the member names the user");
    assert_eq!(state.guild_id, Some(Id::new(1)));
    assert_eq!(state.channel_id, Some(Id::new(2)));
    assert_eq!(state.user_id, Id::new(3));
    assert_eq!(state.session_id.as_deref(), Some("abc"));
    assert!(state.self_mute);
    assert!(!state.deaf && !state.mute && !state.self_deaf && !state.self_stream);

    // A `user_id` that is present but unreadable is not replaced by the
    // member's.
    let data = object(vec![
        ("user_id", JsonValue::Null),
        ("member", object(vec![("user", object(vec![("id", text("3"))]))])),
    ]);
    assert!(parse_voice_state_update(&data).is_none());
}

#[test]
fn a_call_participant_without_a_channel_is_in_the_call() {
    let data = object(vec![
        ("channel_id", text("50")),
        (
            "voice_states",
            JsonValue::Array(vec![
                object(vec![("user_id", text("7"))]),
                object(vec![("user_id", text("8")), ("channel_id", text("51"))]),
                object(vec![("channel_id", text("50"))]),
            ]),
        ),
    ]);
    let states = parse_call(&data);
    assert_eq!(states.len(), 2);
    assert_eq!(states[0].user_id, Id::new(7));
    assert_eq!(states[0].channel_id, Some(Id::new(50)));
    assert_eq!(states[0].guild_id, None);
    assert_eq!(states[1].channel_id, Some(Id::new(51)));

    let no_channel = object(vec![("voice_states", JsonValue::Array(vec![object(vec![("user_id", text("7"))])]))]);
    assert!(parse_call(&no_channel).is_empty());
    assert_eq!(parse_call_delete(&data), Some(Id::new(50)));
    assert_eq!(parse_call_delete(&no_channel), None);
}

#[test]
fn a_guilds_voice_states_are_all_in_that_guild() {
    let data = object(vec![
        ("id", text("9")),
        (
            "voice_states",
            JsonValue::Array(vec![
                object(vec![("user_id", text("7")), ("guild_id", text("1")), ("channel_id", text("2"))]),
                object(vec![("user_id", text("0"))]),
            ]),
        ),
    ]);
    let states = parse_guild_voice_states(&data);
    assert_eq!(states.len(), 1);
    assert_eq!(states[0].guild_id, Some(Id::new(9)));
    assert_eq!(states[0].channel_id, Some(Id::new(2)));
}

#[test]
fn a_voice_server_needs_somewhere_to_route_and_a_token() {
    let call = object(vec![("channel_id", text("5")), ("token", text("t")), ("endpoint", text(""))]);
    let server = parse_voice_server_update(&call).expect("a call's server routes by channel");
    assert_eq!(server.guild_id, None);
    assert_eq!(server.channel_id, Some(Id::new(5)));
    assert_eq!(server.endpoint, None);

    let nowhere = object(vec![("token", text("t"))]);
    assert!(parse_voice_server_update(&nowhere).is_none());
    let no_token = object(vec![("guild_id", text("1"))]);
    assert!(parse_voice_server_update(&no_token).is_none());
}

#[test]
fn a_default_sounds_numeric_id_parses_too() {
    let data = object(vec![("channel_id", text("2")), ("user_id", text("3")), ("sound_id", JsonValue::UInt(7))]);
    let effect = parse_sound_effect(&data).expect("a default sound should parse");
    assert_eq!(effect.sound_id, 7);
}

#[test]
fn an_emoji_reaction_in_voice_is_not_a_sound() {
    let data = object(vec![
        ("channel_id", text("2")),
        ("user_id", text("3")),
        ("emoji", object(vec![("name", text("wave"))])),
        ("animation_type", JsonValue::UInt(1)),
        ("animation_id", JsonValue::UInt(0)),
    ]);
    assert!(parse_sound_effect(&data).is_none());
}

#[test]
fn a_guild_sound_played_names_its_channel_user_and_sound() {
    let data = object(vec![
        ("guild_id", text("1")),
        ("channel_id", text("2")),
        ("user_id", text("3")),
        ("sound_id", text("12345")),
    ]);
    let effect = parse_sound_effect(&data).expect("a sound effect should parse");
    assert_eq!(effect.channel_id, Id::new(2));
    assert_eq!(effect.user_id, Id::new(3));
    assert_eq!(effect.sound_id, 12345);
}
