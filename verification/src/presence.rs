//! What someone is doing: their status and activities.
use vstd::prelude::*;

use crate::ids::marker::EmojiMarker;
use crate::ids::Id;
use crate::json::JsonValue;
use crate::text::{concat3, decimal, decimal_string, owned, push_str, trim, trim_seq};

verus! {

/// Where custom emoji images are served from.
pub const EMOJI_CDN: &'static str = "https://cdn.discordapp.com/emojis/";

#[derive(Clone, Copy, Debug, PartialEq, Eq, PartialOrd, Ord, Hash, Structural)]
pub enum PresenceStatus {
    Online,
    Idle,
    DoNotDisturb,
    Offline,
    Unknown,
}

impl PresenceStatus {
    pub fn label(self) -> (s: &'static str)
        ensures
            s@ == match self {
                PresenceStatus::Online => "Online"@,
                PresenceStatus::Idle => "Idle"@,
                PresenceStatus::DoNotDisturb => "Do Not Disturb"@,
                PresenceStatus::Offline => "Offline"@,
                PresenceStatus::Unknown => "Unknown"@,
            },
    {
        match self {
            PresenceStatus::Online => "Online",
            PresenceStatus::Idle => "Idle",
            PresenceStatus::DoNotDisturb => "Do Not Disturb",
            PresenceStatus::Offline => "Offline",
            PresenceStatus::Unknown => "Unknown",
        }
    }

    /// The status word the gateway takes; appearing offline is `invisible`.
    pub fn gateway_status(self) -> (s: &'static str)
        ensures
            s@ == gateway_status_of(self),
    {
        match self {
            PresenceStatus::Online => "online",
            PresenceStatus::Idle => "idle",
            PresenceStatus::DoNotDisturb => "dnd",
            PresenceStatus::Offline => "invisible",
            PresenceStatus::Unknown => "unknown",
        }
    }

    /// The statuses a user can pick, in menu order.
    pub fn user_selectable() -> (v: [PresenceStatus; 4])
        ensures
            v@ == seq![PresenceStatus::Online, PresenceStatus::Idle, PresenceStatus::DoNotDisturb, PresenceStatus::Offline],
    {
        [PresenceStatus::Online, PresenceStatus::Idle, PresenceStatus::DoNotDisturb, PresenceStatus::Offline]
    }
}

pub open spec fn gateway_status_of(s: PresenceStatus) -> Seq<char> {
    match s {
        PresenceStatus::Online => "online"@,
        PresenceStatus::Idle => "idle"@,
        PresenceStatus::DoNotDisturb => "dnd"@,
        PresenceStatus::Offline => "invisible"@,
        PresenceStatus::Unknown => "unknown"@,
    }
}

#[derive(Clone, Copy, Debug, PartialEq, Eq, PartialOrd, Ord, Hash, Structural)]
pub enum ActivityKind {
    Playing,
    Streaming,
    Listening,
    Watching,
    Custom,
    Competing,
    Hang,
    Unknown(u64),
}

pub open spec fn activity_kind_of(code: u64) -> ActivityKind {
    match code {
        0 => ActivityKind::Playing,
        1 => ActivityKind::Streaming,
        2 => ActivityKind::Listening,
        3 => ActivityKind::Watching,
        4 => ActivityKind::Custom,
        5 => ActivityKind::Competing,
        6 => ActivityKind::Hang,
        value => ActivityKind::Unknown(value),
    }
}

pub open spec fn activity_code_of(kind: ActivityKind) -> u64 {
    match kind {
        ActivityKind::Playing => 0,
        ActivityKind::Streaming => 1,
        ActivityKind::Listening => 2,
        ActivityKind::Watching => 3,
        ActivityKind::Custom => 4,
        ActivityKind::Competing => 5,
        ActivityKind::Hang => 6,
        ActivityKind::Unknown(value) => value,
    }
}

impl ActivityKind {
    pub fn from_code(code: u64) -> (k: Self)
        ensures
            k == activity_kind_of(code),
    {
        match code {
            0 => ActivityKind::Playing,
            1 => ActivityKind::Streaming,
            2 => ActivityKind::Listening,
            3 => ActivityKind::Watching,
            4 => ActivityKind::Custom,
            5 => ActivityKind::Competing,
            6 => ActivityKind::Hang,
            value => ActivityKind::Unknown(value),
        }
    }

    /// The number the gateway takes for the kind.
    pub fn gateway_code(self) -> (c: u64)
        ensures
            c == activity_code_of(self),
    {
        match self {
            ActivityKind::Playing => 0,
            ActivityKind::Streaming => 1,
            ActivityKind::Listening => 2,
            ActivityKind::Watching => 3,
            ActivityKind::Custom => 4,
            ActivityKind::Competing => 5,
            ActivityKind::Hang => 6,
            ActivityKind::Unknown(value) => value,
        }
    }
}

/// Law: every code reads back as itself, so a kind Discord adds later
/// survives a round trip through the client.
pub proof fn law_activity_code_round_trips(code: u64)
    ensures
        activity_code_of(activity_kind_of(code)) == code,
{
}

#[derive(Clone, Debug, PartialEq, Eq)]
pub struct ActivityEmoji {
    pub name: String,
    pub id: Option<Id<EmojiMarker>>,
    pub animated: bool,
}

/// The CDN URL of a custom emoji's image: animated ones as GIF.
pub open spec fn emoji_image_url(id: u64, animated: bool) -> Seq<char> {
    EMOJI_CDN@ + decimal(id as nat) + if animated { ".gif"@ } else { ".png"@ }
}

impl ActivityEmoji {
    /// The image of a custom emoji (one with an id); a Unicode emoji renders
    /// as text and has none.
    pub fn image_url(&self) -> (u: Option<String>)
        ensures
            u.deep_view() == match self.id {
                Some(id) => Some(emoji_image_url(id@, self.animated)),
                None => None,
            },
    {
        match self.id {
            Some(id) => Some(concat3(
                EMOJI_CDN,
                decimal_string(id.get()).as_str(),
                if self.animated { ".gif" } else { ".png" },
            )),
            None => None,
        }
    }
}

/// Start and end of an activity, in Unix milliseconds.
#[derive(Clone, Copy, Debug, PartialEq, Eq)]
pub struct ActivityTimestamps {
    pub start: Option<i64>,
    pub end: Option<i64>,
}

/// Image slots of a rich presence card.
#[derive(Debug, PartialEq, Eq)]
pub struct ActivityAssets {
    pub large_image: Option<String>,
    pub large_text: Option<String>,
    pub large_url: Option<String>,
    pub small_image: Option<String>,
    pub small_text: Option<String>,
    pub small_url: Option<String>,
    pub invite_cover_image: Option<String>,
    /// Fields this client does not model, kept in key order.
    pub extra_fields: Vec<(String, JsonValue)>,
}

/// Party grouping for an activity; `size` is (current, max) members.
#[derive(Debug, PartialEq, Eq)]
pub struct ActivityParty {
    pub id: Option<String>,
    pub size: Option<(u32, u32)>,
    pub privacy: Option<u8>,
    pub extra_fields: Vec<(String, JsonValue)>,
}

#[derive(Debug, PartialEq, Eq)]
pub struct ActivitySecrets {
    pub join: Option<String>,
    pub spectate: Option<String>,
    pub extra_fields: Vec<(String, JsonValue)>,
}

/// A clickable button of an activity.
#[derive(Clone, Debug, PartialEq, Eq)]
pub struct ActivityButton {
    pub label: String,
    pub url: String,
}

#[derive(Debug, PartialEq, Eq)]
pub struct ActivityInfo {
    /// Receive-only identity, never sent back.
    pub id: Option<String>,
    pub kind: ActivityKind,
    pub name: String,
    /// Receive-only creation time in Unix milliseconds.
    pub created_at: Option<i64>,
    /// Receive-only session identity.
    pub session_id: Option<String>,
    pub platform: Option<String>,
    pub supported_platforms: Vec<String>,
    pub details: Option<String>,
    pub details_url: Option<String>,
    pub state: Option<String>,
    pub state_url: Option<String>,
    pub url: Option<String>,
    pub application_id: Option<String>,
    pub parent_application_id: Option<String>,
    pub status_display_type: Option<u8>,
    pub sync_id: Option<String>,
    pub flags: Option<u64>,
    pub emoji: Option<ActivityEmoji>,
    pub timestamps: Option<ActivityTimestamps>,
    pub assets: Option<ActivityAssets>,
    pub party: Option<ActivityParty>,
    pub secrets: Option<ActivitySecrets>,
    pub buttons: Vec<ActivityButton>,
    /// RPC's boolean form of the INSTANCE flag.
    pub instance: Option<bool>,
    /// Arbitrary activity metadata, kept in key order.
    pub metadata: Vec<(String, JsonValue)>,
    /// Fields of a newer Discord payload, kept so a status change does not
    /// erase them.
    pub extra_fields: Vec<(String, JsonValue)>,
}

/// The text of an optional string, trimmed; absent reads as empty.
pub open spec fn trimmed_or_empty(o: Option<String>) -> Seq<char> {
    match o {
        Some(s) => trim_seq(s@),
        None => Seq::empty(),
    }
}

pub open spec fn activity_verb(kind: ActivityKind) -> Seq<char> {
    match kind {
        ActivityKind::Playing => "Playing"@,
        ActivityKind::Streaming => "Streaming"@,
        ActivityKind::Listening => "Listening to"@,
        ActivityKind::Watching => "Watching"@,
        ActivityKind::Competing => "Competing in"@,
        _ => Seq::empty(),
    }
}

/// A one-line description. A custom status is its own text, after its
/// emoji's name when it has one; it shows nothing when blank. Anything else
/// is its verb and name (just the name for a kind with no honest verb), then
/// " - details by state", " - details" or " - state" as they are present;
/// a blank name shows nothing.
pub open spec fn display_line_of(a: ActivityInfo) -> Option<Seq<char>> {
    if a.kind == ActivityKind::Custom {
        let text = trimmed_or_empty(a.state);
        if text.len() == 0 {
            None
        } else {
            match a.emoji {
                Some(e) => if trim_seq(e.name@).len() > 0 {
                    Some(trim_seq(e.name@) + " "@ + text)
                } else {
                    Some(text)
                },
                None => Some(text),
            }
        }
    } else {
        let name = trim_seq(a.name@);
        if name.len() == 0 {
            None
        } else {
            let verb = activity_verb(a.kind);
            let line = if verb.len() == 0 { name } else { verb + " "@ + name };
            let details = trimmed_or_empty(a.details);
            let state = trimmed_or_empty(a.state);
            Some(
                if details.len() > 0 && state.len() > 0 {
                    line + " - "@ + details + " by "@ + state
                } else if details.len() > 0 {
                    line + " - "@ + details
                } else if state.len() > 0 {
                    line + " - "@ + state
                } else {
                    line
                },
            )
        }
    }
}

fn trimmed_opt(o: &Option<String>) -> (t: &str)
    ensures
        t@ == trimmed_or_empty(*o),
{
    match o {
        Some(s) => trim(s.as_str()),
        None => {
            proof { reveal_strlit(""); }
            ""
        },
    }
}

impl ActivityInfo {
    /// A playing activity with the given name and nothing else set.
    pub open spec fn is_bare_playing(&self, name: Seq<char>) -> bool {
        &&& self.id is None && self.kind == ActivityKind::Playing && self.name@ == name
        &&& self.created_at is None && self.session_id is None && self.platform is None
        &&& self.supported_platforms@.len() == 0 && self.details is None && self.details_url is None
        &&& self.state is None && self.state_url is None && self.url is None
        &&& self.application_id is None && self.parent_application_id is None
        &&& self.status_display_type is None && self.sync_id is None && self.flags is None
        &&& self.emoji is None && self.timestamps is None && self.assets is None
        &&& self.party is None && self.secrets is None && self.buttons@.len() == 0
        &&& self.instance is None && self.metadata@.len() == 0 && self.extra_fields@.len() == 0
    }

    pub fn playing(name: &str) -> (a: Self)
        ensures
            a.is_bare_playing(name@),
    {
        ActivityInfo {
            id: None,
            kind: ActivityKind::Playing,
            name: owned(name),
            created_at: None,
            session_id: None,
            platform: None,
            supported_platforms: Vec::new(),
            details: None,
            details_url: None,
            state: None,
            state_url: None,
            url: None,
            application_id: None,
            parent_application_id: None,
            status_display_type: None,
            sync_id: None,
            flags: None,
            emoji: None,
            timestamps: None,
            assets: None,
            party: None,
            secrets: None,
            buttons: Vec::new(),
            instance: None,
            metadata: Vec::new(),
            extra_fields: Vec::new(),
        }
    }

    /// An activity of `kind` with the given name and nothing else set.
    pub fn test(kind: ActivityKind, name: &str) -> (a: Self)
        ensures
            a.kind == kind,
            (ActivityInfo { kind: ActivityKind::Playing, ..a }).is_bare_playing(name@),
    {
        let mut a = Self::playing(name);
        a.kind = kind;
        a
    }

    pub fn display_line(&self) -> (line: Option<String>)
        ensures
            line.deep_view() == display_line_of(*self),
    {
        if self.kind == ActivityKind::Custom {
            let text = trimmed_opt(&self.state);
            if text.unicode_len() == 0 {
                return None;
            }
            return match &self.emoji {
                Some(emoji) => {
                    let n = trim(emoji.name.as_str());
                    if n.unicode_len() > 0 {
                        Some(concat3(n, " ", text))
                    } else {
                        Some(owned(text))
                    }
                },
                None => Some(owned(text)),
            };
        }
        let name = trim(self.name.as_str());
        if name.unicode_len() == 0 {
            return None;
        }
        let verb: &str = match self.kind {
            ActivityKind::Playing => "Playing",
            ActivityKind::Streaming => "Streaming",
            ActivityKind::Listening => "Listening to",
            ActivityKind::Watching => "Watching",
            ActivityKind::Competing => "Competing in",
            _ => {
                proof { reveal_strlit(""); }
                ""
            },
        };
        proof {
            reveal_strlit("Playing");
            reveal_strlit("Streaming");
            reveal_strlit("Listening to");
            reveal_strlit("Watching");
            reveal_strlit("Competing in");
        }
        let mut line = if verb.unicode_len() == 0 { owned(name) } else { concat3(verb, " ", name) };
        let details = trimmed_opt(&self.details);
        let state = trimmed_opt(&self.state);
        if details.unicode_len() > 0 && state.unicode_len() > 0 {
            push_str(&mut line, " - ");
            push_str(&mut line, details);
            push_str(&mut line, " by ");
            push_str(&mut line, state);
        } else if details.unicode_len() > 0 {
            push_str(&mut line, " - ");
            push_str(&mut line, details);
        } else if state.unicode_len() > 0 {
            push_str(&mut line, " - ");
            push_str(&mut line, state);
        }
        Some(line)
    }
}

} // verus!
