//! Pruning, the welcome screen, and the server widget.
use vstd::prelude::*;

use crate::ids::marker::{ChannelMarker, RoleMarker};
use crate::ids::Id;
use crate::json::{entries, fields_model, insert_sorted, items_model, obj_get, put, push_item, str_value, Json, JsonValue};
use crate::rest::channel_management::{truncate, truncated};
use crate::rest::discovery_metadata::min_nat;
use crate::text::{decimal, decimal_string, join, join_seq, owned, views};

verus! {

/// The prune windows Discord accepts, in days of inactivity.
pub open spec fn prune_days() -> Seq<u16> {
    seq![1u16, 7, 14, 30, 90]
}

pub open spec fn diff16(a: u16, b: u16) -> int {
    if a >= b { a - b } else { b - a }
}

/// The accepted window closest to `d`; of two equally close, the shorter.
pub open spec fn nearest_prune(d: u16) -> u16 {
    let f = |c: u16| diff16(c, d);
    if f(1) <= f(7) && f(1) <= f(14) && f(1) <= f(30) && f(1) <= f(90) {
        1
    } else if f(7) <= f(14) && f(7) <= f(30) && f(7) <= f(90) {
        7
    } else if f(14) <= f(30) && f(14) <= f(90) {
        14
    } else if f(30) <= f(90) {
        30
    } else {
        90
    }
}

pub fn prune_days_list() -> (v: [u16; 5])
    ensures
        v@ == prune_days(),
{
    [1, 7, 14, 30, 90]
}

/// The accepted prune window closest to `days`: Discord rejects any other.
pub fn nearest_prune_days(days: u16) -> (d: u16)
    ensures
        d == nearest_prune(days),
{
    let candidates = prune_days_list();
    let mut best: u16 = candidates[0];
    let mut best_d: u16 = if best >= days { best - days } else { days - best };
    let mut i: usize = 1;
    while i < 5
        invariant
            candidates@ == prune_days(),
            1 <= i <= 5,
            best_d == diff16(best, days),
            forall|k: int| 0 <= k < i ==> diff16(best, days) <= diff16(#[trigger] prune_days()[k], days),
            exists|k: int| 0 <= k < i && prune_days()[k] == best && forall|j: int| 0 <= j < k ==> diff16(best, days) < diff16(#[trigger] prune_days()[j], days),
        decreases 5 - i,
    {
        let c = candidates[i];
        let d = if c >= days { c - days } else { days - c };
        if d < best_d {
            best = c;
            best_d = d;
            assert(forall|j: int| 0 <= j < i ==> diff16(best, days) < diff16(#[trigger] prune_days()[j], days));
            assert(prune_days()[i as int] == best);
        }
        i = i + 1;
    }
    let ghost k = choose|k: int| 0 <= k < 5 && prune_days()[k] == best && forall|j: int| 0 <= j < k ==> diff16(best, days) < diff16(#[trigger] prune_days()[j], days);
    assert(prune_days()[0] == 1u16);
    assert(prune_days()[1] == 7u16);
    assert(prune_days()[2] == 14u16);
    assert(prune_days()[3] == 30u16);
    assert(prune_days()[4] == 90u16);
    best
}

/// Law: every accepted window is its own nearest, so what is sent is always
/// one Discord accepts and snapping twice changes nothing.
pub proof fn law_prune_days_snap_into_the_list(d: u16)
    ensures
        prune_days().contains(nearest_prune(d)),
        prune_days().contains(d) ==> nearest_prune(d) == d,
        nearest_prune(nearest_prune(d)) == nearest_prune(d),
{
    assert(prune_days()[0] == 1u16);
    assert(prune_days()[1] == 7u16);
    assert(prune_days()[2] == 14u16);
    assert(prune_days()[3] == 30u16);
    assert(prune_days()[4] == 90u16);
}

/// Discord's caps on the welcome screen.
pub const MAX_WELCOME_DESCRIPTION_CHARS: usize = 140;
pub const MAX_WELCOME_CHANNELS: usize = 5;

#[derive(Clone, Debug, PartialEq, Eq)]
pub struct WelcomeChannel {
    pub channel_id: Id<ChannelMarker>,
    pub description: String,
    pub emoji_name: Option<String>,
}

#[derive(Clone, Debug, PartialEq, Eq)]
pub struct WelcomeScreen {
    pub enabled: bool,
    pub description: Option<String>,
    pub channels: Vec<WelcomeChannel>,
}

impl Default for WelcomeScreen {
    fn default() -> (w: Self)
        ensures
            !w.enabled,
            w.description is None,
            w.channels@.len() == 0,
    {
        WelcomeScreen { enabled: false, description: None, channels: Vec::new() }
    }
}

/// What to change about the welcome screen; `None` leaves a field alone and
/// a description of `Some(None)` clears it.
#[derive(Clone, Debug, PartialEq, Eq)]
pub struct WelcomeScreenEdit {
    pub enabled: Option<bool>,
    pub description: Option<Option<String>>,
    pub channels: Option<Vec<WelcomeChannel>>,
}

impl Default for WelcomeScreenEdit {
    fn default() -> (e: Self)
        ensures
            e.enabled is None,
            e.description is None,
            e.channels is None,
    {
        WelcomeScreenEdit { enabled: None, description: None, channels: None }
    }
}

/// A welcome channel as the body carries it.
pub open spec fn welcome_channel_json(c: WelcomeChannel) -> Json {
    let a = insert_sorted(Seq::empty(), "channel_id"@, Json::Str(decimal(c.channel_id@ as nat)));
    let b = insert_sorted(a, "description"@, Json::Str(c.description@));
    let d = insert_sorted(
        b,
        "emoji_name"@,
        match c.emoji_name {
            Some(e) => Json::Str(e@),
            None => Json::Null,
        },
    );
    Json::Object(d)
}

/// What a welcome-screen edit's body holds for a key: each field that
/// changes, the description cut to 140 characters, at most five channels.
pub open spec fn welcome_edit_field(e: WelcomeScreenEdit, k: Seq<char>) -> Option<Json> {
    if k == "welcome_channels"@ && e.channels is Some {
        let cs = e.channels.unwrap()@;
        Some(Json::Array(Seq::new(min_nat(cs.len(), MAX_WELCOME_CHANNELS as nat), |i: int| welcome_channel_json(cs[i]))))
    } else if k == "description"@ && e.description is Some {
        Some(
            match e.description.unwrap() {
                Some(t) => Json::Str(truncated(t@, MAX_WELCOME_DESCRIPTION_CHARS as nat)),
                None => Json::Null,
            },
        )
    } else if k == "enabled"@ && e.enabled is Some {
        Some(Json::Bool(e.enabled.unwrap()))
    } else {
        None
    }
}

fn welcome_channel_value(c: &WelcomeChannel) -> (v: JsonValue)
    ensures
        v.model() == welcome_channel_json(*c),
{
    let mut fields: Vec<(String, JsonValue)> = Vec::new();
    assert(fields_model(fields@) =~= Seq::<(Seq<char>, Json)>::empty());
    put(&mut fields, "channel_id", JsonValue::Str(decimal_string(c.channel_id.get())));
    put(&mut fields, "description", str_value(c.description.as_str()));
    put(
        &mut fields,
        "emoji_name",
        match &c.emoji_name {
            Some(e) => str_value(e.as_str()),
            None => JsonValue::Null,
        },
    );
    JsonValue::Object(fields)
}

impl WelcomeScreenEdit {
    /// Whether this would change anything; an empty edit is not sent.
    pub fn is_empty(&self) -> (b: bool)
        ensures
            b == (self.enabled is None && self.description is None && self.channels is None),
    {
        self.enabled.is_none() && self.description.is_none() && self.channels.is_none()
    }

    pub fn to_body(&self) -> (body: JsonValue)
        ensures
            body.model() is Object,
            forall|k: Seq<char>| #[trigger] obj_get(entries(body.model()), k) == welcome_edit_field(*self, k),
    {
        let mut fields: Vec<(String, JsonValue)> = Vec::new();
        if let Some(enabled) = self.enabled {
            put(&mut fields, "enabled", JsonValue::Bool(enabled));
        }
        if let Some(description) = &self.description {
            put(
                &mut fields,
                "description",
                match description {
                    Some(text) => JsonValue::Str(truncate(text.as_str(), MAX_WELCOME_DESCRIPTION_CHARS)),
                    None => JsonValue::Null,
                },
            );
        }
        if let Some(channels) = &self.channels {
            let n = if channels.len() < MAX_WELCOME_CHANNELS { channels.len() } else { MAX_WELCOME_CHANNELS };
            let mut items: Vec<JsonValue> = Vec::new();
            let mut i: usize = 0;
            while i < n
                invariant
                    n <= channels@.len(),
                    i <= n,
                    items_model(items@) == Seq::new(i as nat, |j: int| welcome_channel_json(channels@[j])),
                decreases n - i,
            {
                push_item(&mut items, welcome_channel_value(&channels[i]));
                assert(items_model(items@) =~= Seq::new((i + 1) as nat, |j: int| welcome_channel_json(channels@[j])));
                i = i + 1;
            }
            put(&mut fields, "welcome_channels", JsonValue::Array(items));
        }
        JsonValue::Object(fields)
    }
}

#[derive(Clone, Debug, PartialEq, Eq)]
pub struct GuildWidget {
    pub enabled: bool,
    /// The channel the widget invites to, if any.
    pub channel_id: Option<Id<ChannelMarker>>,
}

impl Default for GuildWidget {
    fn default() -> (w: Self)
        ensures
            !w.enabled,
            w.channel_id is None,
    {
        GuildWidget { enabled: false, channel_id: None }
    }
}

impl GuildWidget {
    /// The body that sets the widget. A missing channel is sent as null:
    /// omitting it would leave the old channel in place.
    pub fn to_body(&self) -> (body: JsonValue)
        ensures
            body.model() is Object,
            forall|k: Seq<char>| #[trigger] obj_get(entries(body.model()), k) == if k == "channel_id"@ {
                Some(
                    match self.channel_id {
                        Some(id) => Json::Str(decimal(id@ as nat)),
                        None => Json::Null,
                    },
                )
            } else if k == "enabled"@ {
                Some(Json::Bool(self.enabled))
            } else {
                None
            },
    {
        let mut fields: Vec<(String, JsonValue)> = Vec::new();
        put(&mut fields, "enabled", JsonValue::Bool(self.enabled));
        put(
            &mut fields,
            "channel_id",
            match self.channel_id {
                Some(id) => JsonValue::Str(decimal_string(id.get())),
                None => JsonValue::Null,
            },
        );
        JsonValue::Object(fields)
    }
}

/// The role ids a prune includes, comma separated for a query.
pub open spec fn role_list(roles: Seq<Id<RoleMarker>>) -> Seq<char> {
    join_seq(roles.map_values(|r: Id<RoleMarker>| decimal(r@ as nat)), ","@)
}

pub fn role_list_string(roles: &[Id<RoleMarker>]) -> (s: String)
    ensures
        s@ == role_list(roles@),
{
    let mut parts: Vec<String> = Vec::new();
    let n = roles.len();
    let mut i: usize = 0;
    while i < n
        invariant
            n == roles@.len(),
            i <= n,
            parts@.len() == i,
            views(parts@) == roles@.take(i as int).map_values(|r: Id<RoleMarker>| decimal(r@ as nat)),
        decreases n - i,
    {
        let d = decimal_string(roles[i].get());
        assert(d@ == decimal(roles@[i as int]@ as nat));
        let ghost before = parts@;
        parts.push(d);
        assert(parts@ == before.push(d));
        assert forall|j: int| 0 <= j < i + 1 implies #[trigger] views(parts@)[j] == roles@.take(i + 1).map_values(
            |r: Id<RoleMarker>| decimal(r@ as nat),
        )[j] by {
            if j < i {
                assert(parts@[j] == before[j]);
                assert(views(before)[j] == roles@.take(i as int).map_values(|r: Id<RoleMarker>| decimal(r@ as nat))[j]);
            }
        }
        assert(views(parts@) =~= roles@.take(i + 1).map_values(|r: Id<RoleMarker>| decimal(r@ as nat)));
        i = i + 1;
    }
    assert(roles@.take(n as int) =~= roles@);
    join(&parts, ",")
}


/// A welcome channel as Discord sends it.
pub struct WelcomeChannelBody {
    pub channel_id: Option<String>,
    pub description: Option<String>,
    pub emoji_name: Option<String>,
}

/// A row does not name the channel id zero, which no snowflake is.
pub open spec fn channel_id_ok(b: WelcomeChannelBody) -> bool {
    match b.channel_id {
        Some(t) => crate::text::parse_u64_seq(t@) != Some(0u64),
        None => true,
    }
}

pub open spec fn welcome_channel_view(c: WelcomeChannel) -> (u64, Seq<char>, Option<Seq<char>>) {
    (
        c.channel_id@,
        c.description@,
        match c.emoji_name {
            Some(e) => Some(e@),
            None => None,
        },
    )
}

/// The row a body describes: without a readable channel there is nothing
/// for it to point at, so none.
pub open spec fn welcome_channel_of(b: WelcomeChannelBody) -> Option<(u64, Seq<char>, Option<Seq<char>>)> {
    match b.channel_id {
        Some(t) => match crate::text::parse_u64_seq(t@) {
            Some(id) => Some((
                id,
                match b.description {
                    Some(d) => d@,
                    None => Seq::empty(),
                },
                match b.emoji_name {
                    Some(e) => if e@.len() > 0 { Some(e@) } else { None },
                    None => None,
                },
            )),
            None => None,
        },
        None => None,
    }
}

pub open spec fn welcome_channels_of(bs: Seq<WelcomeChannelBody>) -> Seq<(u64, Seq<char>, Option<Seq<char>>)>
    decreases bs.len(),
{
    if bs.len() == 0 {
        Seq::empty()
    } else {
        let rest = welcome_channels_of(bs.drop_last());
        match welcome_channel_of(bs.last()) {
            Some(v) => rest.push(v),
            None => rest,
        }
    }
}

/// The welcome screen a server answered with: an empty description reads
/// as none, and the rows that name a channel are kept in order.
pub fn welcome_screen_from_body(enabled: bool, description: Option<String>, channels: &Vec<WelcomeChannelBody>) -> (w: WelcomeScreen)
    requires
        forall|i: int| 0 <= i < channels@.len() ==> channel_id_ok(#[trigger] channels@[i]),
    ensures
        w.enabled == enabled,
        match w.description {
            Some(d) => description matches Some(t) && t@ == d@ && d@.len() > 0,
            None => description matches Some(t) ==> t@.len() == 0,
        },
        w.channels@.map_values(|c: WelcomeChannel| welcome_channel_view(c)) == welcome_channels_of(channels@),
{
    let mut rows: Vec<WelcomeChannel> = Vec::new();
    let n = channels.len();
    let mut i: usize = 0;
    proof {
        assert(channels@.take(0) =~= Seq::<WelcomeChannelBody>::empty());
        assert(rows@.map_values(|c: WelcomeChannel| welcome_channel_view(c)) =~= Seq::empty());
    }
    while i < n
        invariant
            n == channels@.len(),
            i <= n,
            forall|j: int| 0 <= j < channels@.len() ==> channel_id_ok(#[trigger] channels@[j]),
            rows@.map_values(|c: WelcomeChannel| welcome_channel_view(c)) == welcome_channels_of(channels@.take(i as int)),
        decreases n - i,
    {
        proof {
            assert(channels@.take(i + 1).drop_last() =~= channels@.take(i as int));
            assert(channels@.take(i + 1).last() == channels@[i as int]);
        }
        let body = &channels[i];
        let parsed = match &body.channel_id {
            Some(t) => crate::text::parse_u64(t.as_str()),
            None => None,
        };
        if let Some(id) = parsed {
            let row = WelcomeChannel {
                channel_id: Id::new(id),
                description: match &body.description {
                    Some(d) => owned(d.as_str()),
                    None => String::new(),
                },
                emoji_name: match &body.emoji_name {
                    Some(e) => if e.unicode_len() > 0 { Some(owned(e.as_str())) } else { None },
                    None => None,
                },
            };
            let ghost before = rows@;
            rows.push(row);
            proof {
                assert(rows@.map_values(|c: WelcomeChannel| welcome_channel_view(c)) =~= before.map_values(|c: WelcomeChannel| welcome_channel_view(c)).push(welcome_channel_view(row)));
            }
        }
        i = i + 1;
    }
    proof {
        assert(channels@.take(n as int) =~= channels@);
    }
    let description = match description {
        Some(d) => if d.unicode_len() > 0 { Some(d) } else { None },
        None => None,
    };
    WelcomeScreen { enabled, description, channels: rows }
}

/// The query that counts what a prune would remove: the window snapped to
/// one Discord accepts, and the roles to include where there are any.
pub fn prune_count_query(days: u16, include_roles: &[Id<RoleMarker>]) -> (q: String)
    ensures
        q@ == "days="@ + decimal(nearest_prune(days) as nat) + if include_roles@.len() > 0 {
            "&include_roles="@ + role_list(include_roles@)
        } else {
            Seq::empty()
        },
{
    let mut q = crate::text::concat2("days=", decimal_string(nearest_prune_days(days) as u64).as_str());
    if include_roles.len() > 0 {
        let ghost before = q@;
        crate::text::push_str(&mut q, "&include_roles=");
        crate::text::push_str(&mut q, role_list_string(include_roles).as_str());
        proof {
            assert(q@ =~= before + ("&include_roles="@ + role_list(include_roles@)));
        }
    } else {
        proof {
            assert(q@ =~= q@ + Seq::<char>::empty());
        }
    }
    q
}

pub open spec fn role_texts(roles: Seq<Id<RoleMarker>>) -> Seq<Json> {
    Seq::new(roles.len(), |i: int| Json::Str(decimal(roles[i]@ as nat)))
}

/// The body that prunes: the snapped window, a request for the count, and
/// the roles to include.
pub fn prune_body(days: u16, include_roles: &[Id<RoleMarker>]) -> (body: JsonValue)
    ensures
        body.model() is Object,
        forall|k: Seq<char>| #[trigger] obj_get(entries(body.model()), k) == if k == "include_roles"@ {
            Some(Json::Array(role_texts(include_roles@)))
        } else if k == "compute_prune_count"@ {
            Some(Json::Bool(true))
        } else if k == "days"@ {
            Some(Json::Num(nearest_prune(days) as int))
        } else {
            None
        },
{
    let mut roles: Vec<JsonValue> = Vec::new();
    let n = include_roles.len();
    let mut i: usize = 0;
    while i < n
        invariant
            n == include_roles@.len(),
            i <= n,
            roles@.len() == i,
            forall|k: int| 0 <= k < i ==> (#[trigger] roles@[k]).model() == Json::Str(decimal(include_roles@[k]@ as nat)),
        decreases n - i,
    {
        roles.push(JsonValue::Str(decimal_string(include_roles[i].get())));
        i = i + 1;
    }
    proof {
        assert(items_model(roles@) =~= role_texts(include_roles@));
    }
    let mut fields: Vec<(String, JsonValue)> = Vec::new();
    put(&mut fields, "days", JsonValue::UInt(nearest_prune_days(days) as u64));
    put(&mut fields, "compute_prune_count", JsonValue::Bool(true));
    put(&mut fields, "include_roles", JsonValue::Array(roles));
    JsonValue::Object(fields)
}

} // verus!
