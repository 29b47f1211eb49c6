//! The soundboard: which names Discord takes, and what playing or renaming
//! a sound sends.
use vstd::prelude::*;

use crate::ids::marker::GuildMarker;
use crate::ids::Id;
use crate::json::{entries, obj_get, put, str_value, Json, JsonValue};
use crate::text::{char_count, concat2, decimal, decimal_string, trim, trim_seq};

verus! {

/// Discord's limits on a soundboard sound's name, in characters.
pub const MIN_SOUND_NAME_CHARS: usize = 2;
pub const MAX_SOUND_NAME_CHARS: usize = 32;

pub open spec fn valid_sound_name(name: Seq<char>) -> bool {
    MIN_SOUND_NAME_CHARS <= trim_seq(name).len() <= MAX_SOUND_NAME_CHARS
}

/// Whether Discord will accept this as a sound name: two to thirty-two
/// characters once trimmed.
pub fn is_valid_sound_name(name: &str) -> (b: bool)
    ensures
        b == valid_sound_name(name@),
{
    let length = char_count(trim(name));
    MIN_SOUND_NAME_CHARS <= length && length <= MAX_SOUND_NAME_CHARS
}

/// The body that plays a sound into a voice channel. A guild's sound names
/// the guild it comes from, which is what lets it play elsewhere; a default
/// sound belongs to no guild and names none.
pub fn send_sound_body(sound_id: u64, source_guild_id: Option<Id<GuildMarker>>) -> (body: JsonValue)
    ensures
        body.model() is Object,
        forall|k: Seq<char>| #[trigger] obj_get(entries(body.model()), k) == if k == "source_guild_id"@ && source_guild_id is Some {
            Some(Json::Str(decimal(source_guild_id.unwrap()@ as nat)))
        } else if k == "sound_id"@ {
            Some(Json::Str(decimal(sound_id as nat)))
        } else {
            None
        },
{
    let mut fields: Vec<(String, JsonValue)> = Vec::new();
    put(&mut fields, "sound_id", JsonValue::Str(decimal_string(sound_id)));
    if let Some(guild_id) = source_guild_id {
        put(&mut fields, "source_guild_id", JsonValue::Str(decimal_string(guild_id.get())));
    }
    JsonValue::Object(fields)
}

/// The body that renames a sound.
pub fn rename_sound_body(name: &str) -> (body: JsonValue)
    ensures
        body.model() is Object,
        forall|k: Seq<char>| #[trigger] obj_get(entries(body.model()), k) == if k == "name"@ {
            Some(Json::Str(name@))
        } else {
            None
        },
{
    let mut fields: Vec<(String, JsonValue)> = Vec::new();
    put(&mut fields, "name", str_value(name));
    JsonValue::Object(fields)
}

/// Where a sound's audio lives on Discord's CDN.
pub fn sound_url(sound_id: u64) -> (url: String)
    ensures
        url@ == "https://cdn.discordapp.com/soundboard-sounds/"@ + decimal(sound_id as nat),
{
    let id = decimal_string(sound_id);
    concat2("https://cdn.discordapp.com/soundboard-sounds/", id.as_str())
}

/// What a sound's button shows: its emoji when it has a unicode one, else
/// its name.
pub fn sound_label<'a>(emoji_name: Option<&'a str>, name: &'a str) -> (label: &'a str)
    ensures
        label@ == match emoji_name {
            Some(e) => e@,
            None => name@,
        },
{
    match emoji_name {
        Some(e) => e,
        None => name,
    }
}

} // verus!
