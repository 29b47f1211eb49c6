//! Creating, editing, reordering and deleting channels.
use vstd::prelude::*;

use crate::ids::marker::{ChannelMarker, RoleMarker, UserMarker};
use crate::ids::Id;
use crate::json::{entries, obj_get, put, Json, JsonValue};
use crate::text::{decimal, decimal_string, take_chars};

verus! {

/// Discord's caps on the fields this client edits.
pub const MAX_CHANNEL_NAME_CHARS: usize = 100;
pub const MAX_CHANNEL_TOPIC_CHARS: usize = 4096;
/// Six hours, Discord's ceiling on slowmode.
pub const MAX_SLOWMODE_SECONDS: u32 = 21_600;
/// Discord's cap on a voice channel's occupancy; zero means no limit.
pub const MAX_VOICE_USER_LIMIT: u32 = 99;

/// The channel kinds this client can create.
#[derive(Clone, Copy, Debug, PartialEq, Eq, Structural)]
pub enum NewChannelKind {
    Text,
    Voice,
    Category,
    Announcement,
    Forum,
    Stage,
}

pub open spec fn channel_kind_code(k: NewChannelKind) -> u8 {
    match k {
        NewChannelKind::Text => 0,
        NewChannelKind::Voice => 2,
        NewChannelKind::Category => 4,
        NewChannelKind::Announcement => 5,
        NewChannelKind::Stage => 13,
        NewChannelKind::Forum => 15,
    }
}

impl NewChannelKind {
    /// Every kind, in menu order.
    pub fn all() -> (v: [NewChannelKind; 6])
        ensures
            v@ == seq![
                NewChannelKind::Text,
                NewChannelKind::Voice,
                NewChannelKind::Category,
                NewChannelKind::Announcement,
                NewChannelKind::Forum,
                NewChannelKind::Stage,
            ],
    {
        [
            NewChannelKind::Text,
            NewChannelKind::Voice,
            NewChannelKind::Category,
            NewChannelKind::Announcement,
            NewChannelKind::Forum,
            NewChannelKind::Stage,
        ]
    }

    /// Discord's numeric channel type.
    pub fn code(self) -> (c: u8)
        ensures
            c == channel_kind_code(self),
    {
        match self {
            NewChannelKind::Text => 0,
            NewChannelKind::Voice => 2,
            NewChannelKind::Category => 4,
            NewChannelKind::Announcement => 5,
            NewChannelKind::Stage => 13,
            NewChannelKind::Forum => 15,
        }
    }

    pub fn label(self) -> (s: &'static str)
        ensures
            s@ == match self {
                NewChannelKind::Text => "Text"@,
                NewChannelKind::Voice => "Voice"@,
                NewChannelKind::Category => "Category"@,
                NewChannelKind::Announcement => "Announcement"@,
                NewChannelKind::Stage => "Stage"@,
                NewChannelKind::Forum => "Forum"@,
            },
    {
        match self {
            NewChannelKind::Text => "Text",
            NewChannelKind::Voice => "Voice",
            NewChannelKind::Category => "Category",
            NewChannelKind::Announcement => "Announcement",
            NewChannelKind::Stage => "Stage",
            NewChannelKind::Forum => "Forum",
        }
    }

    /// Whether a topic means anything for this kind.
    pub fn has_topic(self) -> (b: bool)
        ensures
            b == (self == NewChannelKind::Text || self == NewChannelKind::Announcement || self == NewChannelKind::Forum
                || self == NewChannelKind::Stage),
    {
        matches!(self, NewChannelKind::Text | NewChannelKind::Announcement | NewChannelKind::Forum | NewChannelKind::Stage)
    }

    /// Whether bitrate and user limit mean anything for this kind.
    pub fn is_voice(self) -> (b: bool)
        ensures
            b == (self == NewChannelKind::Voice || self == NewChannelKind::Stage),
    {
        matches!(self, NewChannelKind::Voice | NewChannelKind::Stage)
    }
}

/// Law: no two creatable kinds share a code.
pub proof fn law_channel_kind_codes_are_distinct(a: NewChannelKind, b: NewChannelKind)
    ensures
        channel_kind_code(a) == channel_kind_code(b) ==> a == b,
{
}

/// What to change about a channel; `None` leaves a field alone.
#[derive(Clone, Debug, PartialEq, Eq)]
pub struct ChannelEdit {
    pub name: Option<String>,
    /// `Some(None)` clears the topic; `None` leaves it.
    pub topic: Option<Option<String>>,
    pub nsfw: Option<bool>,
    /// Seconds between messages; zero turns slowmode off.
    pub slowmode_seconds: Option<u32>,
    pub bitrate: Option<u32>,
    /// Zero means no limit, which is Discord's own spelling.
    pub user_limit: Option<u32>,
    /// `Some(None)` moves the channel out of its category.
    pub parent_id: Option<Option<Id<ChannelMarker>>>,
}

impl Default for ChannelEdit {
    fn default() -> (e: Self)
        ensures
            e.name is None && e.topic is None && e.nsfw is None && e.slowmode_seconds is None && e.bitrate is None
                && e.user_limit is None && e.parent_id is None,
    {
        ChannelEdit {
            name: None,
            topic: None,
            nsfw: None,
            slowmode_seconds: None,
            bitrate: None,
            user_limit: None,
            parent_id: None,
        }
    }
}

/// The first `n` characters of `s`, or all of it.
pub open spec fn truncated(s: Seq<char>, n: nat) -> Seq<char> {
    if n <= s.len() { s.take(n as int) } else { s }
}

pub open spec fn min_u32(a: u32, b: u32) -> u32 {
    if a <= b { a } else { b }
}

/// What a channel edit's body holds for a key: each field that changes,
/// names and topics cut to Discord's caps on character boundaries, slowmode
/// and user limit clamped, and a cleared topic or parent as null.
pub open spec fn channel_edit_field(e: ChannelEdit, k: Seq<char>) -> Option<Json> {
    if k == "parent_id"@ && e.parent_id is Some {
        Some(
            match e.parent_id.unwrap() {
                Some(id) => Json::Str(decimal(id@ as nat)),
                None => Json::Null,
            },
        )
    } else if k == "user_limit"@ && e.user_limit is Some {
        Some(Json::Num(min_u32(e.user_limit.unwrap(), MAX_VOICE_USER_LIMIT) as int))
    } else if k == "bitrate"@ && e.bitrate is Some {
        Some(Json::Num(e.bitrate.unwrap() as int))
    } else if k == "rate_limit_per_user"@ && e.slowmode_seconds is Some {
        Some(Json::Num(min_u32(e.slowmode_seconds.unwrap(), MAX_SLOWMODE_SECONDS) as int))
    } else if k == "nsfw"@ && e.nsfw is Some {
        Some(Json::Bool(e.nsfw.unwrap()))
    } else if k == "topic"@ && e.topic is Some {
        Some(
            match e.topic.unwrap() {
                Some(t) => Json::Str(truncated(t@, MAX_CHANNEL_TOPIC_CHARS as nat)),
                None => Json::Null,
            },
        )
    } else if k == "name"@ && e.name is Some {
        Some(Json::Str(truncated(e.name.unwrap()@, MAX_CHANNEL_NAME_CHARS as nat)))
    } else {
        None
    }
}

/// Text cut to at most `max_chars` characters, never inside one.
pub fn truncate(text: &str, max_chars: usize) -> (s: String)
    ensures
        s@ == truncated(text@, max_chars as nat),
{
    let s = take_chars(text, max_chars);
    proof {
        if max_chars > text@.len() {
            assert(text@.take(text@.len() as int) =~= text@);
        }
    }
    s
}

pub fn min32(a: u32, b: u32) -> (m: u32)
    ensures
        m == min_u32(a, b),
{
    if a <= b { a } else { b }
}

impl ChannelEdit {
    /// Whether this would change anything; an empty edit is not sent.
    pub fn is_empty(&self) -> (b: bool)
        ensures
            b == (self.name is None && self.topic is None && self.nsfw is None && self.slowmode_seconds is None
                && self.bitrate is None && self.user_limit is None && self.parent_id is None),
    {
        self.name.is_none() && self.topic.is_none() && self.nsfw.is_none() && self.slowmode_seconds.is_none()
            && self.bitrate.is_none() && self.user_limit.is_none() && self.parent_id.is_none()
    }

    /// The request body: only the fields that change.
    pub fn to_body(&self) -> (body: JsonValue)
        ensures
            body.model() is Object,
            forall|k: Seq<char>| #[trigger] obj_get(entries(body.model()), k) == channel_edit_field(*self, k),
    {
        let mut fields: Vec<(String, JsonValue)> = Vec::new();
        if let Some(name) = &self.name {
            put(&mut fields, "name", JsonValue::Str(truncate(name.as_str(), MAX_CHANNEL_NAME_CHARS)));
        }
        if let Some(topic) = &self.topic {
            put(
                &mut fields,
                "topic",
                match topic {
                    Some(text) => JsonValue::Str(truncate(text.as_str(), MAX_CHANNEL_TOPIC_CHARS)),
                    None => JsonValue::Null,
                },
            );
        }
        if let Some(nsfw) = self.nsfw {
            put(&mut fields, "nsfw", JsonValue::Bool(nsfw));
        }
        if let Some(slowmode) = self.slowmode_seconds {
            put(&mut fields, "rate_limit_per_user", JsonValue::UInt(min32(slowmode, MAX_SLOWMODE_SECONDS) as u64));
        }
        if let Some(bitrate) = self.bitrate {
            put(&mut fields, "bitrate", JsonValue::UInt(bitrate as u64));
        }
        if let Some(limit) = self.user_limit {
            put(&mut fields, "user_limit", JsonValue::UInt(min32(limit, MAX_VOICE_USER_LIMIT) as u64));
        }
        if let Some(parent) = &self.parent_id {
            put(
                &mut fields,
                "parent_id",
                match parent {
                    Some(id) => JsonValue::Str(decimal_string(id.get())),
                    None => JsonValue::Null,
                },
            );
        }
        JsonValue::Object(fields)
    }
}

/// Who a permission overwrite applies to.
#[derive(Clone, Copy, Debug, PartialEq, Eq)]
pub enum OverwriteTarget {
    Role(Id<RoleMarker>),
    Member(Id<UserMarker>),
}

impl OverwriteTarget {
    /// Discord's overwrite type: 0 for a role, 1 for a member.
    pub fn code(self) -> (c: u8)
        ensures
            c == match self {
                OverwriteTarget::Role(_) => 0u8,
                OverwriteTarget::Member(_) => 1u8,
            },
    {
        match self {
            OverwriteTarget::Role(_) => 0,
            OverwriteTarget::Member(_) => 1,
        }
    }

    pub fn id(self) -> (v: u64)
        ensures
            v == match self {
                OverwriteTarget::Role(id) => id@,
                OverwriteTarget::Member(id) => id@,
            },
    {
        match self {
            OverwriteTarget::Role(id) => id.get(),
            OverwriteTarget::Member(id) => id.get(),
        }
    }
}


/// The body that creates a channel: its name cut to Discord's cap, its
/// kind, and its category, except that a category is never put inside one.
pub fn create_channel_body(name: &str, kind: NewChannelKind, parent_id: Option<Id<ChannelMarker>>) -> (body: JsonValue)
    ensures
        body.model() is Object,
        forall|k: Seq<char>| #[trigger] obj_get(entries(body.model()), k) == if k == "parent_id"@ && parent_id is Some && kind != NewChannelKind::Category {
            Some(Json::Str(decimal(parent_id.unwrap()@ as nat)))
        } else if k == "type"@ {
            Some(Json::Num(channel_kind_code(kind) as int))
        } else if k == "name"@ {
            Some(Json::Str(truncated(name@, MAX_CHANNEL_NAME_CHARS as nat)))
        } else {
            None
        },
{
    let mut fields: Vec<(String, JsonValue)> = Vec::new();
    put(&mut fields, "name", JsonValue::Str(truncate(name, MAX_CHANNEL_NAME_CHARS)));
    put(&mut fields, "type", JsonValue::UInt(kind.code() as u64));
    if let Some(parent) = parent_id {
        let is_category = match kind {
            NewChannelKind::Category => true,
            _ => false,
        };
        if !is_category {
            put(&mut fields, "parent_id", JsonValue::Str(decimal_string(parent.get())));
        }
    }
    JsonValue::Object(fields)
}

/// The body that sets a permission overwrite: the bitfields as strings,
/// since they exceed what a JSON number holds exactly, and whom it is for.
pub fn overwrite_body(target: OverwriteTarget, allow: u64, deny: u64) -> (body: JsonValue)
    ensures
        body.model() is Object,
        forall|k: Seq<char>| #[trigger] obj_get(entries(body.model()), k) == if k == "type"@ {
            Some(Json::Num(match target {
                OverwriteTarget::Role(_) => 0,
                OverwriteTarget::Member(_) => 1,
            }))
        } else if k == "deny"@ {
            Some(Json::Str(decimal(deny as nat)))
        } else if k == "allow"@ {
            Some(Json::Str(decimal(allow as nat)))
        } else {
            None
        },
{
    let mut fields: Vec<(String, JsonValue)> = Vec::new();
    put(&mut fields, "allow", JsonValue::Str(decimal_string(allow)));
    put(&mut fields, "deny", JsonValue::Str(decimal_string(deny)));
    put(&mut fields, "type", JsonValue::UInt(target.code() as u64));
    JsonValue::Object(fields)
}

pub open spec fn position_json(id: u64, position: u32) -> Json {
    Json::Object(crate::json::insert_sorted(crate::json::insert_sorted(Seq::empty(), "id"@, Json::Str(decimal(id as nat))), "position"@, Json::Num(position as int)))
}

/// The body that moves channels or roles: each id with its new position.
pub fn positions_body<T>(positions: &[(Id<T>, u32)]) -> (body: JsonValue)
    ensures
        body.model() == Json::Array(Seq::new(positions@.len(), |i: int| position_json(positions@[i].0@, positions@[i].1))),
{
    let mut items: Vec<JsonValue> = Vec::new();
    let n = positions.len();
    let mut i: usize = 0;
    while i < n
        invariant
            n == positions@.len(),
            i <= n,
            items@.len() == i,
            forall|k: int| 0 <= k < i ==> (#[trigger] items@[k]).model() == position_json(positions@[k].0@, positions@[k].1),
        decreases n - i,
    {
        let id = positions[i].0.get();
        let position = positions[i].1;
        let mut fields: Vec<(String, JsonValue)> = Vec::new();
        proof {
            assert(crate::json::fields_model(fields@) =~= Seq::<(Seq<char>, Json)>::empty());
        }
        put(&mut fields, "id", JsonValue::Str(decimal_string(id)));
        put(&mut fields, "position", JsonValue::UInt(position as u64));
        items.push(JsonValue::Object(fields));
        i = i + 1;
    }
    proof {
        assert(crate::json::items_model(items@) =~= Seq::new(positions@.len(), |i: int| position_json(positions@[i].0@, positions@[i].1)));
    }
    JsonValue::Array(items)
}

} // verus!
