//! A server's own settings: only what the client can show.
use vstd::prelude::*;

use crate::ids::marker::ChannelMarker;
use crate::ids::Id;
use crate::json::{entries, obj_get, put, Json, JsonValue};
use crate::rest::channel_management::{truncate, truncated};
use crate::rest::upload::{data_uri, data_uri_string};
use crate::text::{char_count, concat2, decimal, decimal_string, owned, trim, trim_seq};

verus! {

/// Discord's caps on a server name, in characters.
pub const MIN_GUILD_NAME_CHARS: usize = 2;
pub const MAX_GUILD_NAME_CHARS: usize = 100;

/// Who has to prove what before they can talk in a server. A level from a
/// newer Discord keeps its number.
#[derive(Clone, Copy, Debug, PartialEq, Eq, Structural)]
pub enum GuildVerificationLevel {
    NotRequired,
    Low,
    Medium,
    High,
    VeryHigh,
    Unknown(u64),
}

pub open spec fn verification_level_of(value: u64) -> GuildVerificationLevel {
    match value {
        0 => GuildVerificationLevel::NotRequired,
        1 => GuildVerificationLevel::Low,
        2 => GuildVerificationLevel::Medium,
        3 => GuildVerificationLevel::High,
        4 => GuildVerificationLevel::VeryHigh,
        other => GuildVerificationLevel::Unknown(other),
    }
}

pub open spec fn verification_code_of(level: GuildVerificationLevel) -> u64 {
    match level {
        GuildVerificationLevel::NotRequired => 0,
        GuildVerificationLevel::Low => 1,
        GuildVerificationLevel::Medium => 2,
        GuildVerificationLevel::High => 3,
        GuildVerificationLevel::VeryHigh => 4,
        GuildVerificationLevel::Unknown(value) => value,
    }
}

impl GuildVerificationLevel {
    pub fn from_value(value: u64) -> (l: Self)
        ensures
            l == verification_level_of(value),
    {
        match value {
            0 => GuildVerificationLevel::NotRequired,
            1 => GuildVerificationLevel::Low,
            2 => GuildVerificationLevel::Medium,
            3 => GuildVerificationLevel::High,
            4 => GuildVerificationLevel::VeryHigh,
            other => GuildVerificationLevel::Unknown(other),
        }
    }
}

/// The number Discord uses for a level; an unknown one is sent back as it
/// came, since anything else would silently downgrade a security setting.
pub fn verification_code(level: GuildVerificationLevel) -> (c: u64)
    ensures
        c == verification_code_of(level),
{
    match level {
        GuildVerificationLevel::NotRequired => 0,
        GuildVerificationLevel::Low => 1,
        GuildVerificationLevel::Medium => 2,
        GuildVerificationLevel::High => 3,
        GuildVerificationLevel::VeryHigh => 4,
        GuildVerificationLevel::Unknown(value) => value,
    }
}

pub open spec fn verification_label_of(level: GuildVerificationLevel) -> Seq<char> {
    match level {
        GuildVerificationLevel::NotRequired => "None"@,
        GuildVerificationLevel::Low => "Low - verified email"@,
        GuildVerificationLevel::Medium => "Medium - registered over 5 minutes"@,
        GuildVerificationLevel::High => "High - a member for over 10 minutes"@,
        GuildVerificationLevel::VeryHigh => "Highest - verified phone"@,
        GuildVerificationLevel::Unknown(value) => "Unrecognised level "@ + decimal(value as nat),
    }
}

/// How a level reads; a newer one is named by its number, not shown as the
/// weakest.
pub fn verification_label(level: GuildVerificationLevel) -> (s: String)
    ensures
        s@ == verification_label_of(level),
{
    match level {
        GuildVerificationLevel::NotRequired => owned("None"),
        GuildVerificationLevel::Low => owned("Low - verified email"),
        GuildVerificationLevel::Medium => owned("Medium - registered over 5 minutes"),
        GuildVerificationLevel::High => owned("High - a member for over 10 minutes"),
        GuildVerificationLevel::VeryHigh => owned("Highest - verified phone"),
        GuildVerificationLevel::Unknown(value) => concat2("Unrecognised level ", decimal_string(value).as_str()),
    }
}

/// Law: every level, a newer one included, round-trips through its code.
pub proof fn law_verification_level_round_trips(level: GuildVerificationLevel, value: u64)
    ensures
        verification_level_of(verification_code_of(level)) == level || level is Unknown,
        verification_code_of(verification_level_of(value)) == value,
{
}

#[derive(Clone, Copy, Debug, PartialEq, Eq, Structural)]
pub enum DefaultNotifications {
    AllMessages,
    OnlyMentions,
}

pub open spec fn default_notifications_of(code: u64) -> DefaultNotifications {
    if code == 1 { DefaultNotifications::OnlyMentions } else { DefaultNotifications::AllMessages }
}

pub open spec fn default_notifications_code(n: DefaultNotifications) -> u8 {
    match n {
        DefaultNotifications::AllMessages => 0,
        DefaultNotifications::OnlyMentions => 1,
    }
}

impl DefaultNotifications {
    pub fn all() -> (v: [DefaultNotifications; 2])
        ensures
            v@ == seq![DefaultNotifications::AllMessages, DefaultNotifications::OnlyMentions],
    {
        [DefaultNotifications::AllMessages, DefaultNotifications::OnlyMentions]
    }

    pub fn code(self) -> (c: u8)
        ensures
            c == default_notifications_code(self),
    {
        match self {
            DefaultNotifications::AllMessages => 0,
            DefaultNotifications::OnlyMentions => 1,
        }
    }

    /// The setting for a code; anything unknown reads as all messages.
    pub fn from_code(code: u64) -> (n: Self)
        ensures
            n == default_notifications_of(code),
    {
        if code == 1 { DefaultNotifications::OnlyMentions } else { DefaultNotifications::AllMessages }
    }

    pub fn label(self) -> (s: &'static str)
        ensures
            s@ == match self {
                DefaultNotifications::AllMessages => "All messages"@,
                DefaultNotifications::OnlyMentions => "Only mentions"@,
            },
    {
        match self {
            DefaultNotifications::AllMessages => "All messages",
            DefaultNotifications::OnlyMentions => "Only mentions",
        }
    }
}

#[derive(Clone, Copy, Debug, PartialEq, Eq, Structural)]
pub enum ExplicitContentFilter {
    Disabled,
    MembersWithoutRoles,
    AllMembers,
}

pub open spec fn content_filter_of(code: u64) -> ExplicitContentFilter {
    match code {
        1 => ExplicitContentFilter::MembersWithoutRoles,
        2 => ExplicitContentFilter::AllMembers,
        _ => ExplicitContentFilter::Disabled,
    }
}

pub open spec fn content_filter_code(f: ExplicitContentFilter) -> u8 {
    match f {
        ExplicitContentFilter::Disabled => 0,
        ExplicitContentFilter::MembersWithoutRoles => 1,
        ExplicitContentFilter::AllMembers => 2,
    }
}

impl ExplicitContentFilter {
    pub fn all() -> (v: [ExplicitContentFilter; 3])
        ensures
            v@ == seq![
                ExplicitContentFilter::Disabled,
                ExplicitContentFilter::MembersWithoutRoles,
                ExplicitContentFilter::AllMembers,
            ],
    {
        [ExplicitContentFilter::Disabled, ExplicitContentFilter::MembersWithoutRoles, ExplicitContentFilter::AllMembers]
    }

    pub fn code(self) -> (c: u8)
        ensures
            c == content_filter_code(self),
    {
        match self {
            ExplicitContentFilter::Disabled => 0,
            ExplicitContentFilter::MembersWithoutRoles => 1,
            ExplicitContentFilter::AllMembers => 2,
        }
    }

    /// The filter for a code; anything unknown reads as disabled.
    pub fn from_code(code: u64) -> (f: Self)
        ensures
            f == content_filter_of(code),
    {
        match code {
            1 => ExplicitContentFilter::MembersWithoutRoles,
            2 => ExplicitContentFilter::AllMembers,
            _ => ExplicitContentFilter::Disabled,
        }
    }

    pub fn label(self) -> (s: &'static str)
        ensures
            s@ == match self {
                ExplicitContentFilter::Disabled => "Do not scan"@,
                ExplicitContentFilter::MembersWithoutRoles => "Scan members without roles"@,
                ExplicitContentFilter::AllMembers => "Scan everyone"@,
            },
    {
        match self {
            ExplicitContentFilter::Disabled => "Do not scan",
            ExplicitContentFilter::MembersWithoutRoles => "Scan members without roles",
            ExplicitContentFilter::AllMembers => "Scan everyone",
        }
    }
}

/// Law: both settings read back from their codes as themselves.
pub proof fn law_setting_codes_round_trip(n: DefaultNotifications, f: ExplicitContentFilter)
    ensures
        default_notifications_of(default_notifications_code(n) as u64) == n,
        content_filter_of(content_filter_code(f) as u64) == f,
{
}

/// What to change about a server; `None` leaves a field alone, and for the
/// channels `Some(None)` clears one.
#[derive(Clone, Debug, PartialEq, Eq)]
pub struct GuildEdit {
    pub name: Option<String>,
    pub verification_level: Option<GuildVerificationLevel>,
    pub default_notifications: Option<DefaultNotifications>,
    pub explicit_content_filter: Option<ExplicitContentFilter>,
    pub afk_channel_id: Option<Option<Id<ChannelMarker>>>,
    pub afk_timeout_seconds: Option<u32>,
    pub system_channel_id: Option<Option<Id<ChannelMarker>>>,
}

impl Default for GuildEdit {
    fn default() -> (e: Self)
        ensures
            e.name is None && e.verification_level is None && e.default_notifications is None
                && e.explicit_content_filter is None && e.afk_channel_id is None && e.afk_timeout_seconds is None
                && e.system_channel_id is None,
    {
        GuildEdit {
            name: None,
            verification_level: None,
            default_notifications: None,
            explicit_content_filter: None,
            afk_channel_id: None,
            afk_timeout_seconds: None,
            system_channel_id: None,
        }
    }
}

/// The AFK timeouts Discord accepts, in seconds.
pub open spec fn afk_timeouts() -> Seq<u32> {
    seq![60u32, 300, 900, 1800, 3600]
}

pub open spec fn abs_diff(a: u32, b: u32) -> int {
    if a >= b { a - b } else { b - a }
}

/// The accepted timeout closest to `s`; of two equally close, the shorter.
pub open spec fn nearest_afk(s: u32) -> u32 {
    let d = |c: u32| abs_diff(c, s);
    if d(60) <= d(300) && d(60) <= d(900) && d(60) <= d(1800) && d(60) <= d(3600) {
        60
    } else if d(300) <= d(900) && d(300) <= d(1800) && d(300) <= d(3600) {
        300
    } else if d(900) <= d(1800) && d(900) <= d(3600) {
        900
    } else if d(1800) <= d(3600) {
        1800
    } else {
        3600
    }
}

pub fn afk_timeouts_list() -> (v: [u32; 5])
    ensures
        v@ == afk_timeouts(),
{
    [60, 300, 900, 1800, 3600]
}

/// The accepted timeout closest to `seconds`, the first of the list on a
/// tie: Discord rejects any other value.
pub fn nearest_afk_timeout(seconds: u32) -> (t: u32)
    ensures
        t == nearest_afk(seconds),
{
    let candidates = afk_timeouts_list();
    let mut best: u32 = candidates[0];
    let mut best_d: u32 = if best >= seconds { best - seconds } else { seconds - best };
    let mut i: usize = 1;
    while i < 5
        invariant
            candidates@ == afk_timeouts(),
            1 <= i <= 5,
            best_d == abs_diff(best, seconds),
            best == (if i == 1 {
                60u32
            } else if i == 2 {
                if abs_diff(60, seconds) <= abs_diff(300, seconds) { 60u32 } else { 300u32 }
            } else {
                best
            }),
            forall|k: int| 0 <= k < i ==> abs_diff(best, seconds) <= abs_diff(#[trigger] afk_timeouts()[k], seconds),
            exists|k: int| 0 <= k < i && afk_timeouts()[k] == best && forall|j: int| 0 <= j < k ==> abs_diff(best, seconds) < abs_diff(#[trigger] afk_timeouts()[j], seconds),
        decreases 5 - i,
    {
        let c = candidates[i];
        let d = if c >= seconds { c - seconds } else { seconds - c };
        if d < best_d {
            best = c;
            best_d = d;
            assert(forall|j: int| 0 <= j < i ==> abs_diff(best, seconds) < abs_diff(#[trigger] afk_timeouts()[j], seconds));
            assert(afk_timeouts()[i as int] == best);
        }
        i = i + 1;
    }
    let ghost k = choose|k: int| 0 <= k < 5 && afk_timeouts()[k] == best && forall|j: int| 0 <= j < k ==> abs_diff(best, seconds) < abs_diff(#[trigger] afk_timeouts()[j], seconds);
    assert(afk_timeouts()[0] == 60u32);
    assert(afk_timeouts()[1] == 300u32);
    assert(afk_timeouts()[2] == 900u32);
    assert(afk_timeouts()[3] == 1800u32);
    assert(afk_timeouts()[4] == 3600u32);
    best
}

/// Law: every accepted timeout is its own nearest, so snapping twice
/// changes nothing, and what is sent is always one Discord accepts.
pub proof fn law_afk_timeout_snaps_into_the_list(s: u32)
    ensures
        afk_timeouts().contains(nearest_afk(s)),
        afk_timeouts().contains(s) ==> nearest_afk(s) == s,
        nearest_afk(nearest_afk(s)) == nearest_afk(s),
{
    assert(afk_timeouts()[0] == 60u32);
    assert(afk_timeouts()[1] == 300u32);
    assert(afk_timeouts()[2] == 900u32);
    assert(afk_timeouts()[3] == 1800u32);
    assert(afk_timeouts()[4] == 3600u32);
}

/// A server name Discord accepts: 2 to 100 characters once trimmed.
pub fn is_valid_guild_name(name: &str) -> (b: bool)
    ensures
        b == (MIN_GUILD_NAME_CHARS <= trim_seq(name@).len() <= MAX_GUILD_NAME_CHARS),
{
    let n = char_count(trim(name));
    MIN_GUILD_NAME_CHARS <= n && n <= MAX_GUILD_NAME_CHARS
}

pub open spec fn channel_json(c: Option<Id<ChannelMarker>>) -> Json {
    match c {
        Some(id) => Json::Str(decimal(id@ as nat)),
        None => Json::Null,
    }
}

fn channel_value(c: Option<Id<ChannelMarker>>) -> (v: JsonValue)
    ensures
        v.model() == channel_json(c),
{
    match c {
        Some(id) => JsonValue::Str(decimal_string(id.get())),
        None => JsonValue::Null,
    }
}

/// What a server edit's body holds for a key: each field that changes, the
/// name cut to 100 characters and the AFK timeout snapped to the list.
pub open spec fn guild_edit_field(e: GuildEdit, k: Seq<char>) -> Option<Json> {
    if k == "system_channel_id"@ && e.system_channel_id is Some {
        Some(channel_json(e.system_channel_id.unwrap()))
    } else if k == "afk_timeout"@ && e.afk_timeout_seconds is Some {
        Some(Json::Num(nearest_afk(e.afk_timeout_seconds.unwrap()) as int))
    } else if k == "afk_channel_id"@ && e.afk_channel_id is Some {
        Some(channel_json(e.afk_channel_id.unwrap()))
    } else if k == "explicit_content_filter"@ && e.explicit_content_filter is Some {
        Some(Json::Num(content_filter_code(e.explicit_content_filter.unwrap()) as int))
    } else if k == "default_message_notifications"@ && e.default_notifications is Some {
        Some(Json::Num(default_notifications_code(e.default_notifications.unwrap()) as int))
    } else if k == "verification_level"@ && e.verification_level is Some {
        Some(Json::Num(verification_code_of(e.verification_level.unwrap()) as int))
    } else if k == "name"@ && e.name is Some {
        Some(Json::Str(truncated(e.name.unwrap()@, MAX_GUILD_NAME_CHARS as nat)))
    } else {
        None
    }
}

impl GuildEdit {
    /// Whether this would change anything; an empty edit is not sent.
    pub fn is_empty(&self) -> (b: bool)
        ensures
            b == (self.name is None && self.verification_level is None && self.default_notifications is None
                && self.explicit_content_filter is None && self.afk_channel_id is None
                && self.afk_timeout_seconds is None && self.system_channel_id is None),
    {
        self.name.is_none() && self.verification_level.is_none() && self.default_notifications.is_none()
            && self.explicit_content_filter.is_none() && self.afk_channel_id.is_none()
            && self.afk_timeout_seconds.is_none() && self.system_channel_id.is_none()
    }

    pub fn to_body(&self) -> (body: JsonValue)
        ensures
            body.model() is Object,
            forall|k: Seq<char>| #[trigger] obj_get(entries(body.model()), k) == guild_edit_field(*self, k),
    {
        let mut fields: Vec<(String, JsonValue)> = Vec::new();
        if let Some(name) = &self.name {
            put(&mut fields, "name", JsonValue::Str(truncate(name.as_str(), MAX_GUILD_NAME_CHARS)));
        }
        if let Some(level) = self.verification_level {
            put(&mut fields, "verification_level", JsonValue::UInt(verification_code(level)));
        }
        if let Some(n) = self.default_notifications {
            put(&mut fields, "default_message_notifications", JsonValue::UInt(n.code() as u64));
        }
        if let Some(f) = self.explicit_content_filter {
            put(&mut fields, "explicit_content_filter", JsonValue::UInt(f.code() as u64));
        }
        if let Some(c) = self.afk_channel_id {
            put(&mut fields, "afk_channel_id", channel_value(c));
        }
        if let Some(t) = self.afk_timeout_seconds {
            put(&mut fields, "afk_timeout", JsonValue::UInt(nearest_afk_timeout(t) as u64));
        }
        if let Some(c) = self.system_channel_id {
            put(&mut fields, "system_channel_id", channel_value(c));
        }
        JsonValue::Object(fields)
    }
}

/// The body that sets a server's icon to an image.
pub fn guild_icon_body(content_type: &str, bytes: &[u8]) -> (body: JsonValue)
    ensures
        body.model() is Object,
        forall|k: Seq<char>| #[trigger] obj_get(entries(body.model()), k) == if k == "icon"@ {
            Some(Json::Str(data_uri(content_type@, bytes@)))
        } else {
            None
        },
{
    let mut fields: Vec<(String, JsonValue)> = Vec::new();
    put(&mut fields, "icon", JsonValue::Str(data_uri_string(content_type, bytes)));
    JsonValue::Object(fields)
}

} // verus!
