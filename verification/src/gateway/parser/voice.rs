//! Voice: who is in which voice channel, the voice server to connect to,
//! private calls, and soundboard sounds played in voice.
use vstd::prelude::*;

use crate::gateway::parser::{flag_at, flag_field, id_at, id_field, parse_id, snowflake_of, text_at, text_field};
use crate::gateway::session::opt_view;
use crate::ids::marker::{ChannelMarker, GuildMarker, UserMarker};
use crate::ids::Id;
use crate::json::{field, items_model, Json, JsonValue};
use crate::text::{parse_u64, parse_u64_seq};

verus! {

/// One user's voice state. A private call's state has no guild; a state
/// with no channel is one that left.
#[derive(Clone, Debug, PartialEq, Eq)]
pub struct VoiceStateInfo {
    pub guild_id: Option<Id<GuildMarker>>,
    pub channel_id: Option<Id<ChannelMarker>>,
    pub user_id: Id<UserMarker>,
    pub session_id: Option<String>,
    pub deaf: bool,
    pub mute: bool,
    pub self_deaf: bool,
    pub self_mute: bool,
    pub self_stream: bool,
}

/// A voice state as plain values.
pub struct VoiceStateView {
    pub guild_id: Option<u64>,
    pub channel_id: Option<u64>,
    pub user_id: u64,
    pub session_id: Option<Seq<char>>,
    pub deaf: bool,
    pub mute: bool,
    pub self_deaf: bool,
    pub self_mute: bool,
    pub self_stream: bool,
}

pub open spec fn id_opt<T>(i: Option<Id<T>>) -> Option<u64> {
    match i {
        Some(x) => Some(x@),
        None => None,
    }
}

impl View for VoiceStateInfo {
    type V = VoiceStateView;

    open spec fn view(&self) -> VoiceStateView {
        VoiceStateView {
            guild_id: id_opt(self.guild_id),
            channel_id: id_opt(self.channel_id),
            user_id: self.user_id@,
            session_id: opt_view(self.session_id),
            deaf: self.deaf,
            mute: self.mute,
            self_deaf: self.self_deaf,
            self_mute: self.self_mute,
            self_stream: self.self_stream,
        }
    }
}

pub open spec fn state_opt(r: Option<VoiceStateInfo>) -> Option<VoiceStateView> {
    match r {
        Some(s) => Some(s@),
        None => None,
    }
}

/// Where a voice state names its user: `user_id`, else the member's
/// `user_id`, else the member's user's `id`. The first of these present is
/// the one read, even when it does not hold an id.
pub open spec fn raw_user_id(v: Json) -> Option<Json> {
    match field(v, "user_id"@) {
        Some(x) => Some(x),
        None => match field(v, "member"@) {
            Some(m) => match field(m, "user_id"@) {
                Some(x) => Some(x),
                None => match field(m, "user"@) {
                    Some(u) => field(u, "id"@),
                    None => None,
                },
            },
            None => None,
        },
    }
}

/// The voice state a value describes, in the guild given or else the one
/// it names; none without a user.
pub open spec fn voice_state_of(v: Json, guild_override: Option<u64>) -> Option<VoiceStateView> {
    match raw_user_id(v) {
        Some(u) => match snowflake_of(u) {
            Some(user_id) => Some(VoiceStateView {
                guild_id: match guild_override {
                    Some(g) => Some(g),
                    None => id_field(v, "guild_id"@),
                },
                channel_id: id_field(v, "channel_id"@),
                user_id,
                session_id: text_field(v, "session_id"@),
                deaf: flag_field(v, "deaf"@),
                mute: flag_field(v, "mute"@),
                self_deaf: flag_field(v, "self_deaf"@),
                self_mute: flag_field(v, "self_mute"@),
                self_stream: flag_field(v, "self_stream"@),
            }),
            None => None,
        },
        None => None,
    }
}

fn raw_user_id_at(v: &JsonValue) -> (r: Option<&JsonValue>)
    ensures
        match r {
            Some(x) => raw_user_id(v.model()) == Some(x.model()),
            None => raw_user_id(v.model()) is None,
        },
{
    match v.get("user_id") {
        Some(x) => Some(x),
        None => match v.get("member") {
            Some(m) => match m.get("user_id") {
                Some(x) => Some(x),
                None => match m.get("user") {
                    Some(u) => u.get("id"),
                    None => None,
                },
            },
            None => None,
        },
    }
}

/// The voice state a value describes, in `guild_id_override` when given.
pub fn parse_voice_state_info(value: &JsonValue, guild_id_override: Option<Id<GuildMarker>>) -> (r: Option<VoiceStateInfo>)
    ensures
        state_opt(r) == voice_state_of(value.model(), id_opt(guild_id_override)),
{
    let guild_id = match guild_id_override {
        Some(g) => Some(g),
        None => id_at(value, "guild_id"),
    };
    let user_id = match raw_user_id_at(value) {
        Some(x) => match parse_id(x) {
            Some(u) => u,
            None => return None,
        },
        None => return None,
    };
    Some(VoiceStateInfo {
        guild_id,
        channel_id: id_at(value, "channel_id"),
        user_id,
        session_id: text_at(value, "session_id"),
        deaf: flag_at(value, "deaf"),
        mute: flag_at(value, "mute"),
        self_deaf: flag_at(value, "self_deaf"),
        self_mute: flag_at(value, "self_mute"),
        self_stream: flag_at(value, "self_stream"),
    })
}

/// A `VOICE_STATE_UPDATE`.
pub fn parse_voice_state_update(data: &JsonValue) -> (r: Option<VoiceStateInfo>)
    ensures
        state_opt(r) == voice_state_of(data.model(), None),
{
    parse_voice_state_info(data, None)
}

/// A private call's participant: it has no guild, and one that names no
/// channel is in the call's.
pub open spec fn call_state_of(v: Json, call_channel_id: u64) -> Option<VoiceStateView> {
    match voice_state_of(v, None) {
        Some(s) => Some(if s.channel_id is None { VoiceStateView { channel_id: Some(call_channel_id), ..s } } else { s }),
        None => None,
    }
}

fn parse_call_voice_state(value: &JsonValue, call_channel_id: Id<ChannelMarker>) -> (r: Option<VoiceStateInfo>)
    ensures
        state_opt(r) == call_state_of(value.model(), call_channel_id@),
{
    match parse_voice_state_info(value, None) {
        Some(mut state) => {
            if state.channel_id.is_none() {
                state.channel_id = Some(call_channel_id);
            }
            Some(state)
        },
        None => None,
    }
}

/// The participants of a call, in order, those without a user left out.
pub open spec fn call_states_of(items: Seq<Json>, call_channel_id: u64) -> Seq<VoiceStateView>
    decreases items.len(),
{
    if items.len() == 0 {
        Seq::empty()
    } else {
        let rest = call_states_of(items.drop_last(), call_channel_id);
        match call_state_of(items.last(), call_channel_id) {
            Some(s) => rest.push(s),
            None => rest,
        }
    }
}

/// The states a guild lists, in order, each in that guild, those without a
/// user left out.
pub open spec fn guild_states_of(items: Seq<Json>, guild_id: u64) -> Seq<VoiceStateView>
    decreases items.len(),
{
    if items.len() == 0 {
        Seq::empty()
    } else {
        let rest = guild_states_of(items.drop_last(), guild_id);
        match voice_state_of(items.last(), Some(guild_id)) {
            Some(s) => rest.push(s),
            None => rest,
        }
    }
}

/// The array an object holds under `k`; anything else holds none.
pub open spec fn array_field(j: Json, k: Seq<char>) -> Seq<Json> {
    match field(j, k) {
        Some(Json::Array(items)) => items,
        _ => Seq::empty(),
    }
}

pub open spec fn views(states: Seq<VoiceStateInfo>) -> Seq<VoiceStateView> {
    states.map_values(|s: VoiceStateInfo| s@)
}

fn array_at<'a>(v: &'a JsonValue, key: &str) -> (r: Option<&'a Vec<JsonValue>>)
    ensures
        match r {
            Some(items) => field(v.model(), key@) == Some(Json::Array(items_model(items@))),
            None => array_field(v.model(), key@) == Seq::<Json>::empty(),
        },
{
    match v.get(key) {
        Some(x) => x.as_array(),
        None => None,
    }
}

/// A `CALL_CREATE` or `CALL_UPDATE`: the voice state of each participant
/// already in the call. Without the call's channel there is none.
pub fn parse_call(data: &JsonValue) -> (r: Vec<VoiceStateInfo>)
    ensures
        views(r@) == match id_field(data.model(), "channel_id"@) {
            Some(c) => call_states_of(array_field(data.model(), "voice_states"@), c),
            None => Seq::empty(),
        },
{
    let mut out: Vec<VoiceStateInfo> = Vec::new();
    let channel_id: Id<ChannelMarker> = match id_at(data, "channel_id") {
        Some(c) => c,
        None => {
            assert(views(out@) =~= Seq::empty());
            return out;
        },
    };
    let items = match array_at(data, "voice_states") {
        Some(items) => items,
        None => {
            assert(views(out@) =~= Seq::empty());
            return out;
        },
    };
    let ghost model = items_model(items@);
    let n = items.len();
    let mut i: usize = 0;
    assert(views(out@) =~= call_states_of(model.take(0), channel_id@));
    while i < n
        invariant
            n == items@.len(),
            i <= n,
            model == items_model(items@),
            views(out@) == call_states_of(model.take(i as int), channel_id@),
        decreases n - i,
    {
        proof {
            assert(model.take(i + 1).drop_last() =~= model.take(i as int));
            assert(model.take(i + 1).last() == items@[i as int].model());
        }
        match parse_call_voice_state(&items[i], channel_id) {
            Some(state) => {
                let ghost before = out@;
                out.push(state);
                assert(views(out@) =~= views(before).push(state@));
            },
            None => {},
        }
        i = i + 1;
    }
    assert(model.take(n as int) =~= model);
    out
}

/// A `CALL_DELETE`: the call in this channel ended.
pub fn parse_call_delete(data: &JsonValue) -> (r: Option<Id<ChannelMarker>>)
    ensures
        id_opt(r) == id_field(data.model(), "channel_id"@),
{
    id_at(data, "channel_id")
}

/// The voice states a `GUILD_CREATE` carries, each in that guild. Without
/// the guild's id there is none.
pub fn parse_guild_voice_states(data: &JsonValue) -> (r: Vec<VoiceStateInfo>)
    ensures
        views(r@) == match id_field(data.model(), "id"@) {
            Some(g) => guild_states_of(array_field(data.model(), "voice_states"@), g),
            None => Seq::empty(),
        },
{
    let mut out: Vec<VoiceStateInfo> = Vec::new();
    let guild_id: Id<GuildMarker> = match id_at(data, "id") {
        Some(g) => g,
        None => {
            assert(views(out@) =~= Seq::empty());
            return out;
        },
    };
    let items = match array_at(data, "voice_states") {
        Some(items) => items,
        None => {
            assert(views(out@) =~= Seq::empty());
            return out;
        },
    };
    let ghost model = items_model(items@);
    let n = items.len();
    let mut i: usize = 0;
    assert(views(out@) =~= guild_states_of(model.take(0), guild_id@));
    while i < n
        invariant
            n == items@.len(),
            i <= n,
            model == items_model(items@),
            views(out@) == guild_states_of(model.take(i as int), guild_id@),
        decreases n - i,
    {
        proof {
            assert(model.take(i + 1).drop_last() =~= model.take(i as int));
            assert(model.take(i + 1).last() == items@[i as int].model());
        }
        match parse_voice_state_info(&items[i], Some(guild_id)) {
            Some(state) => {
                let ghost before = out@;
                out.push(state);
                assert(views(out@) =~= views(before).push(state@));
            },
            None => {},
        }
        i = i + 1;
    }
    assert(model.take(n as int) =~= model);
    out
}

/// The voice server a connection goes to: a guild's, or a private call's
/// channel's, with the token to join and the endpoint once there is one.
#[derive(Clone, Debug, PartialEq, Eq)]
pub struct VoiceServerInfo {
    pub guild_id: Option<Id<GuildMarker>>,
    pub channel_id: Option<Id<ChannelMarker>>,
    pub endpoint: Option<String>,
    pub token: String,
}

/// A `VOICE_SERVER_UPDATE`: it needs a guild or a channel to be routed by,
/// and a token.
pub fn parse_voice_server_update(data: &JsonValue) -> (r: Option<VoiceServerInfo>)
    ensures
        ({
            let j = data.model();
            &&& r is Some <==> ((id_field(j, "guild_id"@) is Some || id_field(j, "channel_id"@) is Some)
                && text_field(j, "token"@) is Some)
            &&& r matches Some(s) ==> {
                &&& id_opt(s.guild_id) == id_field(j, "guild_id"@)
                &&& id_opt(s.channel_id) == id_field(j, "channel_id"@)
                &&& Some(s.token@) == text_field(j, "token"@)
                &&& opt_view(s.endpoint) == text_field(j, "endpoint"@)
            }
        }),
{
    let guild_id = id_at(data, "guild_id");
    let channel_id = id_at(data, "channel_id");
    if guild_id.is_none() && channel_id.is_none() {
        return None;
    }
    let token = match text_at(data, "token") {
        Some(t) => t,
        None => return None,
    };
    Some(VoiceServerInfo { guild_id, channel_id, endpoint: text_at(data, "endpoint"), token })
}

/// Who played which soundboard sound where. The volume it was played at is
/// a float and is read beside this.
#[derive(Clone, Copy, Debug, PartialEq, Eq)]
pub struct SoundEffect {
    pub channel_id: Id<ChannelMarker>,
    pub user_id: Id<UserMarker>,
    pub sound_id: u64,
}

/// A sound id: a decimal string for a guild's sound, a number for a
/// default one.
pub open spec fn sound_id_of(j: Json) -> Option<u64> {
    match field(j, "sound_id"@) {
        Some(Json::Str(s)) => parse_u64_seq(s),
        Some(Json::Num(n)) => if 0 <= n <= u64::MAX { Some(n as u64) } else { None },
        _ => None,
    }
}

/// A `VOICE_CHANNEL_EFFECT_SEND` that played a sound. The same dispatch
/// carries emoji reactions, which have no sound id and are no sound.
pub fn parse_sound_effect(data: &JsonValue) -> (r: Option<SoundEffect>)
    ensures
        ({
            let j = data.model();
            &&& r is Some <==> (sound_id_of(j) is Some && id_field(j, "channel_id"@) is Some
                && id_field(j, "user_id"@) is Some)
            &&& r matches Some(e) ==> {
                &&& Some(e.sound_id) == sound_id_of(j)
                &&& Some(e.channel_id@) == id_field(j, "channel_id"@)
                &&& Some(e.user_id@) == id_field(j, "user_id"@)
            }
        }),
{
    let sound_id = match data.get("sound_id") {
        Some(JsonValue::Str(text)) => parse_u64(text.as_str()),
        Some(x) => x.as_u64(),
        None => None,
    };
    let sound_id = match sound_id {
        Some(s) => s,
        None => return None,
    };
    let channel_id = match id_at(data, "channel_id") {
        Some(c) => c,
        None => return None,
    };
    let user_id = match id_at(data, "user_id") {
        Some(u) => u,
        None => return None,
    };
    Some(SoundEffect { channel_id, user_id, sound_id })
}

} // verus!
