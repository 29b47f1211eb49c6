//! An activity as the gateway's presence update carries it.
use vstd::prelude::*;

use crate::json::{fields_model, from_pairs, insert_opt, insert_sorted, object_from_pairs, put, str_value, Json, JsonValue};
use crate::presence::{
    activity_code_of, gateway_status_of, ActivityAssets, ActivityEmoji, ActivityInfo, ActivityParty, ActivitySecrets,
    ActivityTimestamps, PresenceStatus,
};
use crate::text::{decimal, decimal_string, owned};

verus! {

pub open spec fn opt_str(o: Option<String>) -> Option<Json> {
    match o {
        Some(s) => Some(Json::Str(s@)),
        None => None,
    }
}

pub open spec fn strs_json(s: Seq<String>) -> Seq<Json> {
    Seq::new(s.len(), |i: int| Json::Str(s[i]@))
}

pub open spec fn emoji_node(e: ActivityEmoji) -> Json {
    let k0 = insert_sorted(Seq::empty(), "name"@, Json::Str(e.name@));
    let k1 = insert_opt(k0, "id"@, match e.id {
        Some(id) => Some(Json::Str(decimal(id@ as nat))),
        None => None,
    });
    let k2 = insert_opt(k1, "animated"@, if e.animated { Some(Json::Bool(true)) } else { None });
    Json::Object(k2)
}

pub open spec fn timestamps_node(t: ActivityTimestamps) -> Json {
    let k0 = insert_opt(Seq::empty(), "start"@, match t.start {
        Some(v) => Some(Json::Num(v as int)),
        None => None,
    });
    let k1 = insert_opt(k0, "end"@, match t.end {
        Some(v) => Some(Json::Num(v as int)),
        None => None,
    });
    Json::Object(k1)
}

pub open spec fn assets_node(a: ActivityAssets) -> Json {
    let k0 = from_pairs(fields_model(a.extra_fields@));
    let k1 = insert_opt(k0, "large_image"@, opt_str(a.large_image));
    let k2 = insert_opt(k1, "large_text"@, opt_str(a.large_text));
    let k3 = insert_opt(k2, "large_url"@, opt_str(a.large_url));
    let k4 = insert_opt(k3, "small_image"@, opt_str(a.small_image));
    let k5 = insert_opt(k4, "small_text"@, opt_str(a.small_text));
    let k6 = insert_opt(k5, "small_url"@, opt_str(a.small_url));
    let k7 = insert_opt(k6, "invite_cover_image"@, opt_str(a.invite_cover_image));
    Json::Object(k7)
}

pub open spec fn party_node(p: ActivityParty) -> Json {
    let k0 = from_pairs(fields_model(p.extra_fields@));
    let k1 = insert_opt(k0, "id"@, opt_str(p.id));
    let k2 = insert_opt(k1, "size"@, match p.size {
        Some((current, max)) => Some(Json::Array(seq![Json::Num(current as int), Json::Num(max as int)])),
        None => None,
    });
    let k3 = insert_opt(k2, "privacy"@, match p.privacy {
        Some(v) => Some(Json::Num(v as int)),
        None => None,
    });
    Json::Object(k3)
}

pub open spec fn secrets_node(s: ActivitySecrets) -> Json {
    let k0 = from_pairs(fields_model(s.extra_fields@));
    let k1 = insert_opt(k0, "join"@, opt_str(s.join));
    let k2 = insert_opt(k1, "spectate"@, opt_str(s.spectate));
    Json::Object(k2)
}

/// The flags sent: the INSTANCE bit (the lowest) set or cleared where the
/// boolean form says, the rest as received.
pub open spec fn flags_sent(a: ActivityInfo) -> Option<u64> {
    match a.instance {
        Some(true) => Some(
            match a.flags {
                Some(f) => f,
                None => 0u64,
            } | 1u64,
        ),
        Some(false) => Some(
            match a.flags {
                Some(f) => f,
                None => 0u64,
            } & !1u64,
        ),
        None => a.flags,
    }
}

/// Buttons go as a parallel pair: their labels under `buttons`, and their
/// URLs under `metadata.button_urls`.
pub open spec fn button_labels(a: ActivityInfo) -> Seq<Json> {
    Seq::new(a.buttons@.len(), |i: int| Json::Str(a.buttons@[i].label@))
}

pub open spec fn button_urls(a: ActivityInfo) -> Seq<Json> {
    Seq::new(a.buttons@.len(), |i: int| Json::Str(a.buttons@[i].url@))
}

pub open spec fn metadata_fields(a: ActivityInfo) -> Seq<(Seq<char>, Json)> {
    let m = from_pairs(fields_model(a.metadata@));
    if a.buttons.len() > 0 {
        insert_sorted(m, "button_urls"@, Json::Array(button_urls(a)))
    } else {
        m
    }
}

/// The activity object of a presence update: the received extra fields,
/// then name and type, then each field the activity has.
pub open spec fn activity_payload(a: ActivityInfo) -> Json {
    let k0 = from_pairs(fields_model(a.extra_fields@));
    let k1 = insert_sorted(k0, "name"@, Json::Str(a.name@));
    let k2 = insert_sorted(k1, "type"@, Json::Num(activity_code_of(a.kind) as int));
    let k3 = insert_opt(k2, "details"@, opt_str(a.details));
    let k4 = insert_opt(k3, "details_url"@, opt_str(a.details_url));
    let k5 = insert_opt(k4, "state"@, opt_str(a.state));
    let k6 = insert_opt(k5, "state_url"@, opt_str(a.state_url));
    let k7 = insert_opt(k6, "url"@, opt_str(a.url));
    let k8 = insert_opt(k7, "platform"@, opt_str(a.platform));
    let k9 = insert_opt(k8, "supported_platforms"@, if a.supported_platforms.len() > 0 {
        Some(Json::Array(strs_json(a.supported_platforms@)))
    } else {
        None
    });
    let k10 = insert_opt(k9, "emoji"@, match a.emoji {
        Some(e) => Some(emoji_node(e)),
        None => None,
    });
    let k11 = insert_opt(k10, "application_id"@, opt_str(a.application_id));
    let k12 = insert_opt(k11, "parent_application_id"@, opt_str(a.parent_application_id));
    let k13 = insert_opt(k12, "status_display_type"@, match a.status_display_type {
        Some(v) => Some(Json::Num(v as int)),
        None => None,
    });
    let k14 = insert_opt(k13, "sync_id"@, opt_str(a.sync_id));
    let k15 = insert_opt(k14, "timestamps"@, match a.timestamps {
        Some(t) => Some(timestamps_node(t)),
        None => None,
    });
    let k16 = insert_opt(k15, "assets"@, match a.assets {
        Some(x) => Some(assets_node(x)),
        None => None,
    });
    let k17 = insert_opt(k16, "party"@, match a.party {
        Some(x) => Some(party_node(x)),
        None => None,
    });
    let k18 = insert_opt(k17, "secrets"@, match a.secrets {
        Some(x) => Some(secrets_node(x)),
        None => None,
    });
    let k19 = insert_opt(k18, "flags"@, match flags_sent(a) {
        Some(f) => Some(Json::Num(f as int)),
        None => None,
    });
    let k20 = insert_opt(k19, "buttons"@, if a.buttons.len() > 0 { Some(Json::Array(button_labels(a))) } else { None });
    let k21 = insert_opt(k20, "metadata"@, if metadata_fields(a).len() > 0 {
        Some(Json::Object(metadata_fields(a)))
    } else {
        None
    });
    Json::Object(k21)
}

/// Set `key` to the string where there is one.
fn put_opt_str(fields: &mut Vec<(String, JsonValue)>, key: &str, value: &Option<String>)
    ensures
        fields_model(final(fields)@) == insert_opt(fields_model(old(fields)@), key@, opt_str(*value)),
{
    if let Some(v) = value {
        put(fields, key, str_value(v.as_str()));
    }
}

/// Set `key` to the number where there is one.
fn put_opt_num(fields: &mut Vec<(String, JsonValue)>, key: &str, value: Option<u64>)
    ensures
        fields_model(final(fields)@) == insert_opt(
            fields_model(old(fields)@),
            key@,
            match value {
                Some(v) => Some(Json::Num(v as int)),
                None => None,
            },
        ),
{
    if let Some(v) = value {
        put(fields, key, JsonValue::UInt(v));
    }
}

/// A JSON array of the strings.
pub fn str_array(items: &Vec<String>) -> (v: JsonValue)
    ensures
        v.model() == Json::Array(strs_json(items@)),
{
    let mut out: Vec<JsonValue> = Vec::new();
    let n = items.len();
    let mut i: usize = 0;
    while i < n
        invariant
            n == items@.len(),
            i <= n,
            out@.len() == i,
            forall|k: int| 0 <= k < i ==> (#[trigger] out@[k]).model() == Json::Str(items@[k]@),
        decreases n - i,
    {
        out.push(str_value(items[i].as_str()));
        i = i + 1;
    }
    let v = JsonValue::Array(out);
    proof {
        assert(crate::json::items_model(out@) =~= strs_json(items@));
    }
    v
}

fn emoji_value(e: &ActivityEmoji) -> (v: JsonValue)
    ensures
        v.model() == emoji_node(*e),
{
    let mut node: Vec<(String, JsonValue)> = Vec::new();
    proof {
        assert(fields_model(node@) =~= Seq::<(Seq<char>, Json)>::empty());
    }
    put(&mut node, "name", str_value(e.name.as_str()));
    if let Some(id) = e.id {
        put(&mut node, "id", JsonValue::Str(decimal_string(id.get())));
    }
    if e.animated {
        put(&mut node, "animated", JsonValue::Bool(true));
    }
    JsonValue::Object(node)
}

fn timestamps_value(t: &ActivityTimestamps) -> (v: JsonValue)
    ensures
        v.model() == timestamps_node(*t),
{
    let mut node: Vec<(String, JsonValue)> = Vec::new();
    proof {
        assert(fields_model(node@) =~= Seq::<(Seq<char>, Json)>::empty());
    }
    if let Some(start) = t.start {
        put(&mut node, "start", JsonValue::Int(start));
    }
    if let Some(end) = t.end {
        put(&mut node, "end", JsonValue::Int(end));
    }
    JsonValue::Object(node)
}

fn assets_value(a: &ActivityAssets) -> (v: JsonValue)
    ensures
        v.model() == assets_node(*a),
{
    let mut node = object_from_pairs(&a.extra_fields);
    put_opt_str(&mut node, "large_image", &a.large_image);
    put_opt_str(&mut node, "large_text", &a.large_text);
    put_opt_str(&mut node, "large_url", &a.large_url);
    put_opt_str(&mut node, "small_image", &a.small_image);
    put_opt_str(&mut node, "small_text", &a.small_text);
    put_opt_str(&mut node, "small_url", &a.small_url);
    put_opt_str(&mut node, "invite_cover_image", &a.invite_cover_image);
    JsonValue::Object(node)
}

fn party_value(p: &ActivityParty) -> (v: JsonValue)
    ensures
        v.model() == party_node(*p),
{
    let mut node = object_from_pairs(&p.extra_fields);
    put_opt_str(&mut node, "id", &p.id);
    if let Some((current, max)) = p.size {
        let mut pair: Vec<JsonValue> = Vec::new();
        pair.push(JsonValue::UInt(current as u64));
        pair.push(JsonValue::UInt(max as u64));
        let size = JsonValue::Array(pair);
        proof {
            assert(crate::json::items_model(pair@) =~= seq![Json::Num(current as int), Json::Num(max as int)]);
        }
        put(&mut node, "size", size);
    }
    let privacy = match p.privacy {
        Some(v) => Some(v as u64),
        None => None,
    };
    put_opt_num(&mut node, "privacy", privacy);
    JsonValue::Object(node)
}

fn secrets_value(s: &ActivitySecrets) -> (v: JsonValue)
    ensures
        v.model() == secrets_node(*s),
{
    let mut node = object_from_pairs(&s.extra_fields);
    put_opt_str(&mut node, "join", &s.join);
    put_opt_str(&mut node, "spectate", &s.spectate);
    JsonValue::Object(node)
}

fn flags_value(a: &ActivityInfo) -> (f: Option<u64>)
    ensures
        f == flags_sent(*a),
{
    let mut flags = a.flags;
    if let Some(instance) = a.instance {
        let base = match flags {
            Some(f) => f,
            None => 0u64,
        };
        let updated = if instance { base | 1u64 } else { base & !1u64 };
        flags = Some(updated);
    }
    flags
}

fn buttons_values(a: &ActivityInfo) -> (r: (JsonValue, JsonValue))
    ensures
        r.0.model() == Json::Array(button_labels(*a)),
        r.1.model() == Json::Array(button_urls(*a)),
{
    let mut labels: Vec<JsonValue> = Vec::new();
    let mut urls: Vec<JsonValue> = Vec::new();
    let n = a.buttons.len();
    let mut i: usize = 0;
    while i < n
        invariant
            n == a.buttons@.len(),
            i <= n,
            labels@.len() == i,
            urls@.len() == i,
            forall|k: int| 0 <= k < i ==> (#[trigger] labels@[k]).model() == Json::Str(a.buttons@[k].label@),
            forall|k: int| 0 <= k < i ==> (#[trigger] urls@[k]).model() == Json::Str(a.buttons@[k].url@),
        decreases n - i,
    {
        labels.push(str_value(a.buttons[i].label.as_str()));
        urls.push(str_value(a.buttons[i].url.as_str()));
        i = i + 1;
    }
    proof {
        assert(crate::json::items_model(labels@) =~= button_labels(*a));
        assert(crate::json::items_model(urls@) =~= button_urls(*a));
    }
    (JsonValue::Array(labels), JsonValue::Array(urls))
}

/// The activity as a presence update sends it.
pub fn activity_gateway_payload(activity: &ActivityInfo) -> (v: JsonValue)
    ensures
        v.model() == activity_payload(*activity),
{
    let a = activity;
    let mut fields = object_from_pairs(&a.extra_fields);
    put(&mut fields, "name", str_value(a.name.as_str()));
    put(&mut fields, "type", JsonValue::UInt(a.kind.gateway_code()));
    put_opt_str(&mut fields, "details", &a.details);
    put_opt_str(&mut fields, "details_url", &a.details_url);
    put_opt_str(&mut fields, "state", &a.state);
    put_opt_str(&mut fields, "state_url", &a.state_url);
    put_opt_str(&mut fields, "url", &a.url);
    put_opt_str(&mut fields, "platform", &a.platform);
    if a.supported_platforms.len() > 0 {
        put(&mut fields, "supported_platforms", str_array(&a.supported_platforms));
    }
    if let Some(emoji) = &a.emoji {
        put(&mut fields, "emoji", emoji_value(emoji));
    }
    put_opt_str(&mut fields, "application_id", &a.application_id);
    put_opt_str(&mut fields, "parent_application_id", &a.parent_application_id);
    let display = match a.status_display_type {
        Some(v) => Some(v as u64),
        None => None,
    };
    put_opt_num(&mut fields, "status_display_type", display);
    put_opt_str(&mut fields, "sync_id", &a.sync_id);
    if let Some(t) = &a.timestamps {
        put(&mut fields, "timestamps", timestamps_value(t));
    }
    if let Some(x) = &a.assets {
        put(&mut fields, "assets", assets_value(x));
    }
    if let Some(x) = &a.party {
        put(&mut fields, "party", party_value(x));
    }
    if let Some(x) = &a.secrets {
        put(&mut fields, "secrets", secrets_value(x));
    }
    put_opt_num(&mut fields, "flags", flags_value(a));
    let mut metadata = object_from_pairs(&a.metadata);
    if a.buttons.len() > 0 {
        let (labels, urls) = buttons_values(a);
        put(&mut fields, "buttons", labels);
        put(&mut metadata, "button_urls", urls);
    }
    if metadata.len() > 0 {
        put(&mut fields, "metadata", JsonValue::Object(metadata));
    }
    JsonValue::Object(fields)
}

/// The presence object an update or an identify carries.
pub open spec fn presence_payload(status: PresenceStatus, activities: Seq<ActivityInfo>) -> Json {
    let k0 = insert_sorted(Seq::empty(), "since"@, Json::Num(0));
    let k1 = insert_sorted(k0, "activities"@, Json::Array(Seq::new(activities.len(), |i: int| activity_payload(activities[i]))));
    let k2 = insert_sorted(k1, "status"@, Json::Str(gateway_status_of(status)));
    let k3 = insert_sorted(k2, "afk"@, Json::Bool(false));
    Json::Object(k3)
}

pub fn gateway_presence_payload(status: PresenceStatus, activities: &Vec<ActivityInfo>) -> (v: JsonValue)
    ensures
        v.model() == presence_payload(status, activities@),
{
    let mut items: Vec<JsonValue> = Vec::new();
    let n = activities.len();
    let mut i: usize = 0;
    while i < n
        invariant
            n == activities@.len(),
            i <= n,
            items@.len() == i,
            forall|k: int| 0 <= k < i ==> (#[trigger] items@[k]).model() == activity_payload(activities@[k]),
        decreases n - i,
    {
        items.push(activity_gateway_payload(&activities[i]));
        i = i + 1;
    }
    proof {
        assert(crate::json::items_model(items@) =~= Seq::new(activities@.len(), |i: int| activity_payload(activities@[i])));
    }
    let mut fields: Vec<(String, JsonValue)> = Vec::new();
    proof {
        assert(fields_model(fields@) =~= Seq::<(Seq<char>, Json)>::empty());
    }
    put(&mut fields, "since", JsonValue::UInt(0));
    put(&mut fields, "activities", JsonValue::Array(items));
    put(&mut fields, "status", str_value(status.gateway_status()));
    put(&mut fields, "afk", JsonValue::Bool(false));
    JsonValue::Object(fields)
}

} // verus!
