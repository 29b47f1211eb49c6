//! The frames this client sends on the gateway, as compact JSON text.
use vstd::prelude::*;

use crate::gateway::activity::{gateway_presence_payload, presence_payload, str_array, strs_json};
use crate::ids::marker::{ChannelMarker, GuildMarker, MessageMarker, UserMarker};
use crate::ids::Id;
use crate::json::{field, fields_model, insert_opt, insert_sorted, items_model, lemma_get_insert, put, serialize, str_value, to_json_string, Json, JsonValue};
use crate::presence::{ActivityInfo, PresenceStatus};
use crate::text::{decimal, decimal_string, owned};

verus! {

/// The capability bits Discord checks before delivering user-account-only
/// payloads, such as friends' presences: bits 0 and 2 to 7.
pub const USER_ACCOUNT_CAPABILITIES: u64 = 253;

/// Which call a stream belongs to.
#[derive(Clone, Copy, Debug, PartialEq, Eq)]
pub enum VoiceScope {
    Guild(Id<GuildMarker>),
    Private(Id<ChannelMarker>),
}

/// What identify reports about the client it comes from.
#[derive(Clone, Debug, PartialEq, Eq)]
pub struct ClientFingerprint {
    pub os: String,
    pub browser: String,
    pub system_locale: String,
    pub user_agent: String,
    pub browser_version: String,
    pub os_version: String,
    pub referrer_current: String,
    pub referring_domain_current: String,
    pub client_build_number: u64,
    /// The installation id Discord assigned, once it has.
    pub installation_id: Option<String>,
}

/// The cache versions identify may claim: only those this client tracks.
#[derive(Clone, Copy, Debug, PartialEq, Eq)]
pub struct ClientCacheState {
    pub highest_guild_message_id: Option<Id<MessageMarker>>,
    pub read_state_version: Option<u64>,
    pub user_guild_settings_version: Option<i64>,
    pub highest_private_message_id: Option<Id<MessageMarker>>,
}

/// The presence a re-identify restores.
#[derive(Debug, PartialEq, Eq)]
pub struct GatewayPresence {
    pub status: PresenceStatus,
    pub activities: Vec<ActivityInfo>,
}

/// A gateway frame: its opcode and its data.
pub open spec fn op_frame(op: int, d: Json) -> Json {
    Json::Object(insert_sorted(insert_sorted(Seq::empty(), "op"@, Json::Num(op)), "d"@, d))
}

fn op_frame_value(op: u64, d: JsonValue) -> (v: JsonValue)
    ensures
        v.model() == op_frame(op as int, d.model()),
{
    let mut fields: Vec<(String, JsonValue)> = Vec::new();
    proof {
        assert(fields_model(fields@) =~= Seq::<(Seq<char>, Json)>::empty());
    }
    put(&mut fields, "op", JsonValue::UInt(op));
    put(&mut fields, "d", d);
    JsonValue::Object(fields)
}

fn empty_object() -> (v: Vec<(String, JsonValue)>)
    ensures
        fields_model(v@) == Seq::<(Seq<char>, Json)>::empty(),
{
    let v: Vec<(String, JsonValue)> = Vec::new();
    proof {
        assert(fields_model(v@) =~= Seq::<(Seq<char>, Json)>::empty());
    }
    v
}

pub open spec fn id_text(v: u64) -> Json {
    Json::Str(decimal(v as nat))
}

pub open spec fn properties_json(fp: ClientFingerprint) -> Json {
    let k0 = insert_sorted(Seq::empty(), "os"@, Json::Str(fp.os@));
    let k1 = insert_sorted(k0, "browser"@, Json::Str(fp.browser@));
    let k2 = insert_sorted(k1, "device"@, Json::Str(Seq::empty()));
    let k3 = insert_sorted(k2, "system_locale"@, Json::Str(fp.system_locale@));
    let k4 = insert_sorted(k3, "browser_user_agent"@, Json::Str(fp.user_agent@));
    let k5 = insert_sorted(k4, "browser_version"@, Json::Str(fp.browser_version@));
    let k6 = insert_sorted(k5, "os_version"@, Json::Str(fp.os_version@));
    let k7 = insert_sorted(k6, "referrer"@, Json::Str(Seq::empty()));
    let k8 = insert_sorted(k7, "referring_domain"@, Json::Str(Seq::empty()));
    let k9 = insert_sorted(k8, "referrer_current"@, Json::Str(fp.referrer_current@));
    let k10 = insert_sorted(k9, "referring_domain_current"@, Json::Str(fp.referring_domain_current@));
    let k11 = insert_sorted(k10, "release_channel"@, Json::Str("stable"@));
    let k12 = insert_sorted(k11, "client_build_number"@, Json::Num(fp.client_build_number as int));
    let k13 = insert_sorted(k12, "client_event_source"@, Json::Null);
    let k14 = insert_opt(k13, "installation_id"@, match fp.installation_id {
        Some(i) => Some(Json::Str(i@)),
        None => None,
    });
    Json::Object(k14)
}

pub open spec fn opt_message_id_text(o: Option<Id<MessageMarker>>) -> Json {
    match o {
        Some(id) => id_text(id@),
        None => Json::Str("0"@),
    }
}

pub open spec fn client_state_json(cs: ClientCacheState) -> Json {
    let k0 = insert_sorted(Seq::empty(), "guild_versions"@, Json::Object(Seq::empty()));
    let k1 = insert_sorted(k0, "highest_last_message_id"@, opt_message_id_text(cs.highest_guild_message_id));
    let k2 = insert_sorted(k1, "read_state_version"@, Json::Num(match cs.read_state_version {
        Some(v) => v as int,
        None => 0,
    }));
    let k3 = insert_sorted(k2, "user_guild_settings_version"@, Json::Num(match cs.user_guild_settings_version {
        Some(v) => v as int,
        None => -1,
    }));
    let k4 = insert_sorted(k3, "user_settings_version"@, Json::Num(-1));
    let k5 = insert_sorted(k4, "private_channels_version"@, opt_message_id_text(cs.highest_private_message_id));
    let k6 = insert_sorted(k5, "api_code_version"@, Json::Num(0));
    Json::Object(k6)
}

/// The identify frame. Without a presence to restore, the presence is an
/// unknown status with no activities.
pub open spec fn identify_json(token: Seq<char>, fp: ClientFingerprint, presence: Option<Json>, cs: ClientCacheState) -> Json {
    let p = match presence {
        Some(p) => p,
        None => presence_payload(PresenceStatus::Unknown, Seq::empty()),
    };
    let k0 = insert_sorted(Seq::empty(), "token"@, Json::Str(token));
    let k1 = insert_sorted(k0, "capabilities"@, Json::Num(USER_ACCOUNT_CAPABILITIES as int));
    let k2 = insert_sorted(k1, "properties"@, properties_json(fp));
    let k3 = insert_sorted(k2, "presence"@, p);
    let k4 = insert_sorted(k3, "compress"@, Json::Bool(false));
    let k5 = insert_sorted(k4, "client_state"@, client_state_json(cs));
    op_frame(2, Json::Object(k5))
}

fn properties_value(fp: &ClientFingerprint) -> (v: JsonValue)
    ensures
        v.model() == properties_json(*fp),
{
    let mut p = empty_object();
    put(&mut p, "os", str_value(fp.os.as_str()));
    put(&mut p, "browser", str_value(fp.browser.as_str()));
    put(&mut p, "device", JsonValue::Str(String::new()));
    put(&mut p, "system_locale", str_value(fp.system_locale.as_str()));
    put(&mut p, "browser_user_agent", str_value(fp.user_agent.as_str()));
    put(&mut p, "browser_version", str_value(fp.browser_version.as_str()));
    put(&mut p, "os_version", str_value(fp.os_version.as_str()));
    put(&mut p, "referrer", JsonValue::Str(String::new()));
    put(&mut p, "referring_domain", JsonValue::Str(String::new()));
    put(&mut p, "referrer_current", str_value(fp.referrer_current.as_str()));
    put(&mut p, "referring_domain_current", str_value(fp.referring_domain_current.as_str()));
    put(&mut p, "release_channel", str_value("stable"));
    put(&mut p, "client_build_number", JsonValue::UInt(fp.client_build_number));
    put(&mut p, "client_event_source", JsonValue::Null);
    if let Some(installation_id) = &fp.installation_id {
        put(&mut p, "installation_id", str_value(installation_id.as_str()));
    }
    JsonValue::Object(p)
}

fn message_id_text(o: Option<Id<MessageMarker>>) -> (v: JsonValue)
    ensures
        v.model() == opt_message_id_text(o),
{
    match o {
        Some(id) => JsonValue::Str(decimal_string(id.get())),
        None => {
            let v = JsonValue::Str(decimal_string(0));
            proof {
                assert(decimal(0nat) =~= "0"@) by {
                    reveal_strlit("0");
                }
            }
            v
        },
    }
}

fn client_state_value(cs: ClientCacheState) -> (v: JsonValue)
    ensures
        v.model() == client_state_json(cs),
{
    let mut c = empty_object();
    put(&mut c, "guild_versions", JsonValue::Object(empty_object()));
    put(&mut c, "highest_last_message_id", message_id_text(cs.highest_guild_message_id));
    put(&mut c, "read_state_version", JsonValue::UInt(match cs.read_state_version {
        Some(v) => v,
        None => 0,
    }));
    put(&mut c, "user_guild_settings_version", JsonValue::Int(match cs.user_guild_settings_version {
        Some(v) => v,
        None => -1,
    }));
    put(&mut c, "user_settings_version", JsonValue::Int(-1));
    put(&mut c, "private_channels_version", message_id_text(cs.highest_private_message_id));
    put(&mut c, "api_code_version", JsonValue::UInt(0));
    JsonValue::Object(c)
}

/// IDENTIFY: the token, this client's capabilities and properties, the
/// presence to restore (or an unknown one), and what its caches hold.
pub fn build_identify_payload(token: &str, fingerprint: &ClientFingerprint, presence: Option<&GatewayPresence>, client_state: ClientCacheState) -> (s: String)
    ensures
        s@ == serialize(identify_json(token@, *fingerprint, match presence {
            Some(p) => Some(presence_payload(p.status, p.activities@)),
            None => None,
        }, client_state)),
{
    let p = match presence {
        Some(p) => gateway_presence_payload(p.status, &p.activities),
        None => {
            let none: Vec<ActivityInfo> = Vec::new();
            let v = gateway_presence_payload(PresenceStatus::Unknown, &none);
            proof {
                assert(none@ =~= Seq::<ActivityInfo>::empty());
            }
            v
        },
    };
    let mut d = empty_object();
    put(&mut d, "token", str_value(token));
    put(&mut d, "capabilities", JsonValue::UInt(USER_ACCOUNT_CAPABILITIES));
    put(&mut d, "properties", properties_value(fingerprint));
    put(&mut d, "presence", p);
    put(&mut d, "compress", JsonValue::Bool(false));
    put(&mut d, "client_state", client_state_value(client_state));
    to_json_string(&op_frame_value(2, JsonValue::Object(d)))
}

pub open spec fn resume_json(token: Seq<char>, session_id: Seq<char>, sequence: u64) -> Json {
    let k0 = insert_sorted(Seq::empty(), "token"@, Json::Str(token));
    let k1 = insert_sorted(k0, "session_id"@, Json::Str(session_id));
    let k2 = insert_sorted(k1, "seq"@, Json::Num(sequence as int));
    op_frame(6, Json::Object(k2))
}

/// RESUME: the token, the session and the last sequence seen, so Discord
/// replays what was missed.
pub fn build_resume_payload(token: &str, session_id: &str, sequence: u64) -> (s: String)
    ensures
        s@ == serialize(resume_json(token@, session_id@, sequence)),
{
    let mut d = empty_object();
    put(&mut d, "token", str_value(token));
    put(&mut d, "session_id", str_value(session_id));
    put(&mut d, "seq", JsonValue::UInt(sequence));
    to_json_string(&op_frame_value(6, JsonValue::Object(d)))
}

pub open spec fn guild_list(guild_id: u64) -> Json {
    Json::Array(seq![id_text(guild_id)])
}

fn guild_list_value(guild_id: Id<GuildMarker>) -> (v: JsonValue)
    ensures
        v.model() == guild_list(guild_id@),
{
    let mut items: Vec<JsonValue> = Vec::new();
    items.push(JsonValue::Str(decimal_string(guild_id.get())));
    proof {
        assert(items_model(items@) =~= seq![id_text(guild_id@)]);
    }
    JsonValue::Array(items)
}

pub open spec fn search_json(guild_id: u64, query: Seq<char>, limit: u16, presences: bool, nonce: Seq<char>) -> Json {
    let k0 = insert_sorted(Seq::empty(), "guild_id"@, guild_list(guild_id));
    let k1 = insert_sorted(k0, "query"@, Json::Str(query));
    let k2 = insert_sorted(k1, "limit"@, Json::Num(limit as int));
    let k3 = insert_sorted(k2, "presences"@, Json::Bool(presences));
    let k4 = insert_sorted(k3, "nonce"@, Json::Str(nonce));
    op_frame(8, Json::Object(k4))
}

/// REQUEST_GUILD_MEMBERS by name prefix.
pub fn search_guild_members_payload(guild_id: Id<GuildMarker>, query: &str, limit: u16, presences: bool, nonce: &str) -> (s: String)
    ensures
        s@ == serialize(search_json(guild_id@, query@, limit, presences, nonce@)),
{
    let mut d = empty_object();
    put(&mut d, "guild_id", guild_list_value(guild_id));
    put(&mut d, "query", str_value(query));
    put(&mut d, "limit", JsonValue::UInt(limit as u64));
    put(&mut d, "presences", JsonValue::Bool(presences));
    put(&mut d, "nonce", str_value(nonce));
    to_json_string(&op_frame_value(8, JsonValue::Object(d)))
}

/// The most users one member request may name.
pub const MAX_USER_IDS_PER_REQUEST: usize = 100;

pub open spec fn user_id_texts(ids: Seq<Id<UserMarker>>) -> Seq<Json> {
    Seq::new(ids.len(), |i: int| id_text(ids[i]@))
}

pub open spec fn first_hundred(ids: Seq<Id<UserMarker>>) -> Seq<Id<UserMarker>> {
    if ids.len() <= MAX_USER_IDS_PER_REQUEST { ids } else { ids.take(MAX_USER_IDS_PER_REQUEST as int) }
}

pub open spec fn by_ids_json(guild_id: u64, user_ids: Seq<Id<UserMarker>>, presences: bool, nonce: Seq<char>) -> Json {
    let k0 = insert_sorted(Seq::empty(), "guild_id"@, guild_list(guild_id));
    let k1 = insert_sorted(k0, "user_ids"@, Json::Array(user_id_texts(first_hundred(user_ids))));
    let k2 = insert_sorted(k1, "presences"@, Json::Bool(presences));
    let k3 = insert_sorted(k2, "nonce"@, Json::Str(nonce));
    op_frame(8, Json::Object(k3))
}

/// REQUEST_GUILD_MEMBERS for given users: the first hundred, which is as
/// many as one request may name.
pub fn request_guild_members_by_ids_payload(guild_id: Id<GuildMarker>, user_ids: &Vec<Id<UserMarker>>, presences: bool, nonce: &str) -> (s: String)
    ensures
        s@ == serialize(by_ids_json(guild_id@, user_ids@, presences, nonce@)),
{
    let n = if user_ids.len() <= MAX_USER_IDS_PER_REQUEST { user_ids.len() } else { MAX_USER_IDS_PER_REQUEST };
    let mut items: Vec<JsonValue> = Vec::new();
    let mut i: usize = 0;
    while i < n
        invariant
            n <= user_ids@.len(),
            i <= n,
            items@.len() == i,
            forall|k: int| 0 <= k < i ==> (#[trigger] items@[k]).model() == id_text(user_ids@[k]@),
        decreases n - i,
    {
        items.push(JsonValue::Str(decimal_string(user_ids[i].get())));
        i = i + 1;
    }
    proof {
        assert(items_model(items@) =~= user_id_texts(first_hundred(user_ids@)));
    }
    let mut d = empty_object();
    put(&mut d, "guild_id", guild_list_value(guild_id));
    put(&mut d, "user_ids", JsonValue::Array(items));
    put(&mut d, "presences", JsonValue::Bool(presences));
    put(&mut d, "nonce", str_value(nonce));
    to_json_string(&op_frame_value(8, JsonValue::Object(d)))
}

pub open spec fn dm_subscribe_json(channel_id: u64) -> Json {
    op_frame(13, Json::Object(insert_sorted(Seq::empty(), "channel_id"@, id_text(channel_id))))
}

/// Ask for a direct message channel's events.
pub fn direct_message_subscribe_payload(channel_id: Id<ChannelMarker>) -> (s: String)
    ensures
        s@ == serialize(dm_subscribe_json(channel_id@)),
{
    let mut d = empty_object();
    put(&mut d, "channel_id", JsonValue::Str(decimal_string(channel_id.get())));
    to_json_string(&op_frame_value(13, JsonValue::Object(d)))
}

pub open spec fn ranges_json(ranges: Seq<(u32, u32)>) -> Seq<Json> {
    Seq::new(ranges.len(), |i: int| Json::Array(seq![Json::Num(ranges[i].0 as int), Json::Num(ranges[i].1 as int)]))
}

pub open spec fn channel_ids_json(ids: Seq<Id<ChannelMarker>>) -> Seq<Json> {
    Seq::new(ids.len(), |i: int| id_text(ids[i]@))
}

pub open spec fn subscription_json(channel_id: u64, ranges: Seq<(u32, u32)>, threads: Option<Seq<Id<ChannelMarker>>>) -> Json {
    let k0 = insert_sorted(Seq::empty(), "typing"@, Json::Bool(true));
    let k1 = insert_sorted(k0, "activities"@, Json::Bool(true));
    let k2 = insert_sorted(k1, "threads"@, Json::Bool(true));
    let k3 = insert_sorted(k2, "member_updates"@, Json::Bool(true));
    let k4 = insert_sorted(k3, "members"@, Json::Array(Seq::empty()));
    let k5 = insert_sorted(k4, "channels"@, Json::Object(insert_sorted(Seq::empty(), decimal(channel_id as nat), Json::Array(ranges_json(ranges)))));
    let k6 = insert_opt(k5, "thread_member_lists"@, match threads {
        Some(t) => Some(Json::Array(channel_ids_json(t))),
        None => None,
    });
    Json::Object(k6)
}

pub open spec fn guild_subscribe_json(guild_id: u64, channel_id: u64, ranges: Seq<(u32, u32)>, threads: Option<Seq<Id<ChannelMarker>>>) -> Json {
    let subs = insert_sorted(Seq::empty(), decimal(guild_id as nat), subscription_json(channel_id, ranges, threads));
    op_frame(37, Json::Object(insert_sorted(Seq::empty(), "subscriptions"@, Json::Object(subs))))
}

/// Subscribe to a guild channel's typing, activities, threads and member
/// list, the member list over the given ranges; and, where given, to the
/// member lists of those threads.
pub fn guild_channel_subscribe_payload(
    guild_id: Id<GuildMarker>,
    channel_id: Id<ChannelMarker>,
    ranges: &Vec<(u32, u32)>,
    thread_member_lists: Option<&Vec<Id<ChannelMarker>>>,
) -> (s: String)
    ensures
        s@ == serialize(guild_subscribe_json(guild_id@, channel_id@, ranges@, match thread_member_lists {
            Some(t) => Some(t@),
            None => None,
        })),
{
    let mut range_items: Vec<JsonValue> = Vec::new();
    let n = ranges.len();
    let mut i: usize = 0;
    while i < n
        invariant
            n == ranges@.len(),
            i <= n,
            range_items@.len() == i,
            forall|k: int| 0 <= k < i ==> (#[trigger] range_items@[k]).model() == Json::Array(seq![Json::Num(ranges@[k].0 as int), Json::Num(ranges@[k].1 as int)]),
        decreases n - i,
    {
        let (start, end) = ranges[i];
        let mut pair: Vec<JsonValue> = Vec::new();
        pair.push(JsonValue::UInt(start as u64));
        pair.push(JsonValue::UInt(end as u64));
        proof {
            assert(items_model(pair@) =~= seq![Json::Num(start as int), Json::Num(end as int)]);
        }
        range_items.push(JsonValue::Array(pair));
        i = i + 1;
    }
    proof {
        assert(items_model(range_items@) =~= ranges_json(ranges@));
    }
    let mut channels = empty_object();
    put(&mut channels, decimal_string(channel_id.get()).as_str(), JsonValue::Array(range_items));
    let mut sub = empty_object();
    put(&mut sub, "typing", JsonValue::Bool(true));
    put(&mut sub, "activities", JsonValue::Bool(true));
    put(&mut sub, "threads", JsonValue::Bool(true));
    put(&mut sub, "member_updates", JsonValue::Bool(true));
    put(&mut sub, "members", JsonValue::Array(Vec::new()));
    proof {
        assert(items_model(Seq::<JsonValue>::empty()) =~= Seq::<Json>::empty());
    }
    put(&mut sub, "channels", JsonValue::Object(channels));
    if let Some(threads) = thread_member_lists {
        let mut ids: Vec<JsonValue> = Vec::new();
        let m = threads.len();
        let mut j: usize = 0;
        while j < m
            invariant
                m == threads@.len(),
                j <= m,
                ids@.len() == j,
                forall|k: int| 0 <= k < j ==> (#[trigger] ids@[k]).model() == id_text(threads@[k]@),
            decreases m - j,
        {
            ids.push(JsonValue::Str(decimal_string(threads[j].get())));
            j = j + 1;
        }
        proof {
            assert(items_model(ids@) =~= channel_ids_json(threads@));
        }
        put(&mut sub, "thread_member_lists", JsonValue::Array(ids));
    }
    let mut subs = empty_object();
    put(&mut subs, decimal_string(guild_id.get()).as_str(), JsonValue::Object(sub));
    let mut d = empty_object();
    put(&mut d, "subscriptions", JsonValue::Object(subs));
    to_json_string(&op_frame_value(37, JsonValue::Object(d)))
}

pub open spec fn opt_id_text(o: Option<u64>) -> Json {
    match o {
        Some(v) => id_text(v),
        None => Json::Null,
    }
}

pub open spec fn voice_state_json(guild_id: Option<u64>, channel_id: Option<u64>, self_mute: bool, self_deaf: bool) -> Json {
    let k0 = insert_sorted(Seq::empty(), "guild_id"@, opt_id_text(guild_id));
    let k1 = insert_sorted(k0, "channel_id"@, opt_id_text(channel_id));
    let k2 = insert_sorted(k1, "self_mute"@, Json::Bool(self_mute));
    let k3 = insert_sorted(k2, "self_deaf"@, Json::Bool(self_deaf));
    op_frame(4, Json::Object(k3))
}

pub open spec fn guild_view(o: Option<Id<GuildMarker>>) -> Option<u64> {
    match o {
        Some(id) => Some(id@),
        None => None,
    }
}

pub open spec fn channel_view(o: Option<Id<ChannelMarker>>) -> Option<u64> {
    match o {
        Some(id) => Some(id@),
        None => None,
    }
}

/// Join, move or leave a voice channel. A null guild is a direct message
/// or group call, whose channel is the DM channel.
pub fn voice_state_update_payload(guild_id: Option<Id<GuildMarker>>, channel_id: Option<Id<ChannelMarker>>, self_mute: bool, self_deaf: bool) -> (s: String)
    ensures
        s@ == serialize(voice_state_json(guild_view(guild_id), channel_view(channel_id), self_mute, self_deaf)),
{
    let mut d = empty_object();
    put(&mut d, "guild_id", match guild_id {
        Some(id) => JsonValue::Str(decimal_string(id.get())),
        None => JsonValue::Null,
    });
    put(&mut d, "channel_id", match channel_id {
        Some(id) => JsonValue::Str(decimal_string(id.get())),
        None => JsonValue::Null,
    });
    put(&mut d, "self_mute", JsonValue::Bool(self_mute));
    put(&mut d, "self_deaf", JsonValue::Bool(self_deaf));
    to_json_string(&op_frame_value(4, JsonValue::Object(d)))
}

pub open spec fn stream_key_json(op: int, stream_key: Seq<char>) -> Json {
    op_frame(op, Json::Object(insert_sorted(Seq::empty(), "stream_key"@, Json::Str(stream_key))))
}

/// Start watching someone's stream.
pub fn watch_stream_payload(stream_key: &str) -> (s: String)
    ensures
        s@ == serialize(stream_key_json(20, stream_key@)),
{
    let mut d = empty_object();
    put(&mut d, "stream_key", str_value(stream_key));
    to_json_string(&op_frame_value(20, JsonValue::Object(d)))
}

/// Stop a stream.
pub fn delete_stream_payload(stream_key: &str) -> (s: String)
    ensures
        s@ == serialize(stream_key_json(19, stream_key@)),
{
    let mut d = empty_object();
    put(&mut d, "stream_key", str_value(stream_key));
    to_json_string(&op_frame_value(19, JsonValue::Object(d)))
}

pub open spec fn create_stream_json(scope: VoiceScope, channel_id: u64) -> Json {
    let (kind, guild) = match scope {
        VoiceScope::Guild(g) => ("guild"@, id_text(g@)),
        VoiceScope::Private(_) => ("call"@, Json::Null),
    };
    let k0 = insert_sorted(Seq::empty(), "type"@, Json::Str(kind));
    let k1 = insert_sorted(k0, "guild_id"@, guild);
    let k2 = insert_sorted(k1, "channel_id"@, id_text(channel_id));
    let k3 = insert_sorted(k2, "preferred_region"@, Json::Null);
    op_frame(18, Json::Object(k3))
}

/// Start streaming into a call: a guild's, or a private one with no guild.
pub fn create_stream_payload(scope: VoiceScope, channel_id: Id<ChannelMarker>) -> (s: String)
    ensures
        s@ == serialize(create_stream_json(scope, channel_id@)),
{
    let (kind, guild) = match scope {
        VoiceScope::Guild(g) => (str_value("guild"), JsonValue::Str(decimal_string(g.get()))),
        VoiceScope::Private(_) => (str_value("call"), JsonValue::Null),
    };
    let mut d = empty_object();
    put(&mut d, "type", kind);
    put(&mut d, "guild_id", guild);
    put(&mut d, "channel_id", JsonValue::Str(decimal_string(channel_id.get())));
    put(&mut d, "preferred_region", JsonValue::Null);
    to_json_string(&op_frame_value(18, JsonValue::Object(d)))
}

/// Set this account's status and activities.
pub fn presence_update_payload(status: PresenceStatus, activities: &Vec<ActivityInfo>) -> (s: String)
    ensures
        s@ == serialize(op_frame(3, presence_payload(status, activities@))),
{
    to_json_string(&op_frame_value(3, gateway_presence_payload(status, activities)))
}

pub open spec fn heartbeat_json(sequence: Option<u64>) -> Json {
    op_frame(1, match sequence {
        Some(s) => Json::Num(s as int),
        None => Json::Null,
    })
}

/// A heartbeat, carrying the last sequence seen, or null before any.
pub fn heartbeat_payload(sequence: Option<u64>) -> (s: String)
    ensures
        s@ == serialize(heartbeat_json(sequence)),
{
    let d = match sequence {
        Some(v) => JsonValue::UInt(v),
        None => JsonValue::Null,
    };
    to_json_string(&op_frame_value(1, d))
}


/// A frame reads back its opcode and its data.
pub proof fn lemma_op_frame_fields(op: int, d: Json)
    ensures
        field(op_frame(op, d), "op"@) == Some(Json::Num(op)),
        field(op_frame(op, d), "d"@) == Some(d),
{
    reveal_strlit("op");
    reveal_strlit("d");
    assert("op"@.len() != "d"@.len());
    let inner = insert_sorted(Seq::empty(), "op"@, Json::Num(op));
    lemma_get_insert(Seq::empty(), "op"@, Json::Num(op), "op"@);
    lemma_get_insert(inner, "d"@, d, "op"@);
    lemma_get_insert(inner, "d"@, d, "d"@);
}

/// The frames this client sends on its own carry their opcodes and what
/// they are about: IDENTIFY is op 2 with the token; RESUME is op 6 with
/// the token, the session and the last sequence; a heartbeat is op 1 with
/// the last sequence (null before any); a member request is op 8, a
/// request for given users naming its nonce.
pub proof fn law_client_frames_carry_their_opcodes(
    token: Seq<char>,
    fp: ClientFingerprint,
    presence: Option<Json>,
    cs: ClientCacheState,
    session_id: Seq<char>,
    sequence: u64,
    last: Option<u64>,
    guild_id: u64,
    query: Seq<char>,
    limit: u16,
    user_ids: Seq<Id<UserMarker>>,
    presences: bool,
    nonce: Seq<char>,
)
    ensures
        field(identify_json(token, fp, presence, cs), "op"@) == Some(Json::Num(2)),
        field(resume_json(token, session_id, sequence), "op"@) == Some(Json::Num(6)),
        field(resume_json(token, session_id, sequence), "d"@) matches Some(d) && field(d, "token"@) == Some(Json::Str(token))
            && field(d, "session_id"@) == Some(Json::Str(session_id)) && field(d, "seq"@) == Some(Json::Num(sequence as int)),
        field(heartbeat_json(last), "op"@) == Some(Json::Num(1)),
        field(heartbeat_json(last), "d"@) == Some(
            match last {
                Some(s) => Json::Num(s as int),
                None => Json::Null,
            },
        ),
        field(search_json(guild_id, query, limit, presences, nonce), "op"@) == Some(Json::Num(8)),
        field(by_ids_json(guild_id, user_ids, presences, nonce), "op"@) == Some(Json::Num(8)),
        field(by_ids_json(guild_id, user_ids, presences, nonce), "d"@) matches Some(d) && field(d, "nonce"@) == Some(Json::Str(nonce)),
{
    reveal_strlit("token");
    reveal_strlit("session_id");
    reveal_strlit("seq");
    reveal_strlit("nonce");
    reveal_strlit("guild_id");
    reveal_strlit("user_ids");
    reveal_strlit("presences");
    // IDENTIFY.
    let p = match presence {
        Some(p) => p,
        None => presence_payload(PresenceStatus::Unknown, Seq::empty()),
    };
    let i0 = insert_sorted(Seq::empty(), "token"@, Json::Str(token));
    let i1 = insert_sorted(i0, "capabilities"@, Json::Num(USER_ACCOUNT_CAPABILITIES as int));
    let i2 = insert_sorted(i1, "properties"@, properties_json(fp));
    let i3 = insert_sorted(i2, "presence"@, p);
    let i4 = insert_sorted(i3, "compress"@, Json::Bool(false));
    let i5 = insert_sorted(i4, "client_state"@, client_state_json(cs));
    lemma_op_frame_fields(2, Json::Object(i5));
    // RESUME.
    let r0 = insert_sorted(Seq::empty(), "token"@, Json::Str(token));
    let r1 = insert_sorted(r0, "session_id"@, Json::Str(session_id));
    let r2 = insert_sorted(r1, "seq"@, Json::Num(sequence as int));
    lemma_op_frame_fields(6, Json::Object(r2));
    lemma_get_insert(Seq::empty(), "token"@, Json::Str(token), "token"@);
    lemma_get_insert(r0, "session_id"@, Json::Str(session_id), "token"@);
    lemma_get_insert(r0, "session_id"@, Json::Str(session_id), "session_id"@);
    lemma_get_insert(r1, "seq"@, Json::Num(sequence as int), "token"@);
    lemma_get_insert(r1, "seq"@, Json::Num(sequence as int), "session_id"@);
    lemma_get_insert(r1, "seq"@, Json::Num(sequence as int), "seq"@);
    // Heartbeat.
    lemma_op_frame_fields(1, match last {
        Some(s) => Json::Num(s as int),
        None => Json::Null,
    });
    // Member requests.
    let s0 = insert_sorted(Seq::empty(), "guild_id"@, guild_list(guild_id));
    let s1 = insert_sorted(s0, "query"@, Json::Str(query));
    let s2 = insert_sorted(s1, "limit"@, Json::Num(limit as int));
    let s3 = insert_sorted(s2, "presences"@, Json::Bool(presences));
    let s4 = insert_sorted(s3, "nonce"@, Json::Str(nonce));
    lemma_op_frame_fields(8, Json::Object(s4));
    let b0 = insert_sorted(Seq::empty(), "guild_id"@, guild_list(guild_id));
    let b1 = insert_sorted(b0, "user_ids"@, Json::Array(user_id_texts(first_hundred(user_ids))));
    let b2 = insert_sorted(b1, "presences"@, Json::Bool(presences));
    let b3 = insert_sorted(b2, "nonce"@, Json::Str(nonce));
    lemma_op_frame_fields(8, Json::Object(b3));
    lemma_get_insert(b2, "nonce"@, Json::Str(nonce), "nonce"@);
}

} // verus!
