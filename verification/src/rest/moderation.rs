//! Kicking, banning, timeouts and role assignment.
use vstd::prelude::*;

use crate::ids::marker::{RoleMarker, UserMarker};
use crate::ids::Id;
use crate::json::{entries, insert_sorted, items_model, obj_get, put, push_item, Json, JsonValue};
use crate::text::{decimal, decimal_string, owned};

verus! {

/// Seven days: the most message history a ban can delete.
pub const MAX_BAN_DELETE_MESSAGE_SECONDS: u32 = 604_800;

#[derive(Clone, Debug, PartialEq, Eq)]
pub struct GuildBanInfo {
    pub user_id: Id<UserMarker>,
    pub username: String,
    pub reason: Option<String>,
}

pub open spec fn clamp_ban_seconds(seconds: u32) -> u32 {
    if seconds <= MAX_BAN_DELETE_MESSAGE_SECONDS { seconds } else { MAX_BAN_DELETE_MESSAGE_SECONDS }
}

/// How much message history a ban deletes: clamped, since Discord refuses
/// the whole ban over the maximum. Zero keeps every message.
pub fn ban_delete_seconds(seconds: u32) -> (s: u32)
    ensures
        s == clamp_ban_seconds(seconds),
{
    if seconds <= MAX_BAN_DELETE_MESSAGE_SECONDS { seconds } else { MAX_BAN_DELETE_MESSAGE_SECONDS }
}

/// The body of a ban.
pub fn ban_body(delete_message_seconds: u32) -> (body: JsonValue)
    ensures
        body.model() is Object,
        forall|k: Seq<char>| #[trigger] obj_get(entries(body.model()), k) == if k == "delete_message_seconds"@ {
            Some(Json::Num(clamp_ban_seconds(delete_message_seconds) as int))
        } else {
            None
        },
{
    let mut fields: Vec<(String, JsonValue)> = Vec::new();
    put(&mut fields, "delete_message_seconds", JsonValue::UInt(ban_delete_seconds(delete_message_seconds) as u64));
    JsonValue::Object(fields)
}

/// The body that replaces a member's roles with the whole set, so two edits
/// cannot each drop the other's change.
pub fn member_roles_body(role_ids: &[Id<RoleMarker>]) -> (body: JsonValue)
    ensures
        body.model() is Object,
        forall|k: Seq<char>| #[trigger] obj_get(entries(body.model()), k) == if k == "roles"@ {
            Some(Json::Array(role_ids@.map_values(|r: Id<RoleMarker>| Json::Str(decimal(r@ as nat)))))
        } else {
            None
        },
{
    let mut items: Vec<JsonValue> = Vec::new();
    let n = role_ids.len();
    let mut i: usize = 0;
    while i < n
        invariant
            n == role_ids@.len(),
            i <= n,
            items_model(items@) == role_ids@.take(i as int).map_values(|r: Id<RoleMarker>| Json::Str(decimal(r@ as nat))),
        decreases n - i,
    {
        push_item(&mut items, JsonValue::Str(decimal_string(role_ids[i].get())));
        assert(items_model(items@) =~= role_ids@.take(i + 1).map_values(|r: Id<RoleMarker>| Json::Str(decimal(r@ as nat))));
        i = i + 1;
    }
    assert(role_ids@.take(n as int) =~= role_ids@);
    let mut fields: Vec<(String, JsonValue)> = Vec::new();
    put(&mut fields, "roles", JsonValue::Array(items));
    JsonValue::Object(fields)
}

/// The RFC 3339 text of the UTC instant `secs` seconds and `nanos`
/// nanoseconds after the Unix epoch, as chrono writes it; none where chrono
/// cannot hold the instant.
pub uninterp spec fn rfc3339_of(secs: i64, nanos: u32) -> Option<Seq<char>>;

/// `chrono::DateTime::from_timestamp` followed by `to_rfc3339`. The
/// contract claims that the text is a function of the two numbers alone,
/// named `rfc3339_of`, and is absent exactly when chrono gives no instant.
#[verifier::external_body]
fn rfc3339_at(secs: i64, nanos: u32) -> (r: Option<String>)
    ensures
        match r {
            Some(s) => rfc3339_of(secs, nanos) == Some(s@),
            None => rfc3339_of(secs, nanos) is None,
        },
{
    match chrono::DateTime::from_timestamp(secs, nanos) {
        Some(instant) => Some(instant.to_rfc3339()),
        None => None,
    }
}

/// `chrono::Utc::now()`, as whole seconds since the Unix epoch and the
/// nanoseconds past them. It reads the clock, so nothing is promised of
/// the numbers.
#[verifier::external_body]
fn utc_now() -> (i64, u32) {
    let now = chrono::Utc::now();
    (now.timestamp(), now.timestamp_subsec_nanos())
}

/// The object naming the end of a member's timeout.
pub open spec fn timeout_json(until: Json) -> Json {
    Json::Object(insert_sorted(Seq::empty(), "communication_disabled_until"@, until))
}

/// The instant `minutes` after the clock reading `now_secs`/`now_nanos`,
/// in RFC 3339; none past what chrono can hold.
pub open spec fn timeout_until(minutes: u32, now_secs: i64, now_nanos: u32) -> Option<Seq<char>> {
    let secs = now_secs + minutes * 60;
    if secs > i64::MAX { None } else { rfc3339_of(secs as i64, now_nanos) }
}

/// The body that times a member out for `minutes` from the clock reading
/// `now_secs`/`now_nanos`, or clears a timeout with null (omitting the
/// field would leave it in place). None when the end of the timeout is
/// past what chrono can hold.
pub fn timeout_body_at(minutes: Option<u32>, now_secs: i64, now_nanos: u32) -> (body: Option<JsonValue>)
    ensures
        match minutes {
            None => body matches Some(b) && b.model() == timeout_json(Json::Null),
            Some(m) => match timeout_until(m, now_secs, now_nanos) {
                Some(t) => body matches Some(b) && b.model() == timeout_json(Json::Str(t)),
                None => body is None,
            },
        },
{
    let until = match minutes {
        Some(m) => {
            let later = now_secs.checked_add(m as i64 * 60);
            match later {
                Some(secs) => match rfc3339_at(secs, now_nanos) {
                    Some(text) => JsonValue::Str(text),
                    None => return None,
                },
                None => return None,
            }
        },
        None => JsonValue::Null,
    };
    let mut fields: Vec<(String, JsonValue)> = Vec::new();
    put(&mut fields, "communication_disabled_until", until);
    Some(JsonValue::Object(fields))
}

/// The body that times a member out for `minutes` from now (by the UTC
/// clock), or clears a timeout with null. Whatever the clock reads, the
/// body is the one `timeout_body_at` makes of that reading.
pub fn timeout_body(minutes: Option<u32>) -> (body: Option<JsonValue>)
    ensures
        minutes is None ==> (body matches Some(b) && b.model() == timeout_json(Json::Null)),
        minutes matches Some(m) ==> exists|s: i64, n: u32| match #[trigger] timeout_until(m, s, n) {
            Some(t) => body matches Some(b) && b.model() == timeout_json(Json::Str(t)),
            None => body is None,
        },
{
    let (now_secs, now_nanos) = utc_now();
    let body = timeout_body_at(minutes, now_secs, now_nanos);
    proof {
        if let Some(m) = minutes {
            assert(match timeout_until(m, now_secs, now_nanos) {
                Some(t) => body matches Some(b) && b.model() == timeout_json(Json::Str(t)),
                None => body is None,
            });
        }
    }
    body
}

/// One ban as Discord sends it, its user flattened.
pub struct BanBody {
    pub user_present: bool,
    pub user_id: Option<Id<UserMarker>>,
    pub username: Option<String>,
    pub global_name: Option<String>,
    pub reason: Option<String>,
}

/// The ban a body describes: one without a user id cannot be undone from
/// here and gives none; the name is the display name, else the username,
/// else "unknown".
pub fn ban_from_body(body: BanBody) -> (b: Option<GuildBanInfo>)
    ensures
        b is Some <==> (body.user_present && body.user_id is Some),
        b matches Some(b) ==> {
            &&& Some(b.user_id) == body.user_id
            &&& b.username@ == match body.global_name {
                Some(g) => g@,
                None => match body.username {
                    Some(u) => u@,
                    None => "unknown"@,
                },
            }
            &&& b.reason == body.reason
        },
{
    if !body.user_present {
        return None;
    }
    let user_id = match body.user_id {
        Some(id) => id,
        None => return None,
    };
    Some(GuildBanInfo {
        user_id,
        username: match body.global_name {
            Some(g) => g,
            None => match body.username {
                Some(u) => u,
                None => owned("unknown"),
            },
        },
        reason: body.reason,
    })
}

} // verus!
