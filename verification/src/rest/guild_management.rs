//! Managing a server: its invites, its emoji, and what has been done in it.
use vstd::prelude::*;

use crate::ids::marker::{ChannelMarker, EmojiMarker, UserMarker};
use crate::ids::Id;
use crate::rest::upload::{data_uri, data_uri_string};
use crate::json::{entries, items_model, obj_get, put, str_value, Json, JsonValue};
use crate::text::{
    after_last, after_last_char, ascii_alphanumeric, before_first, before_first_char, char_count, concat3, decimal,
    decimal_string, is_ascii_alphanumeric, owned, parse_u64, parse_u64_seq, push_char, push_str, trim_end_matches_char,
    trim_end_matches_seq, trim_start_matches_char, trim_start_matches_seq,
};

verus! {

/// A week: the longest an invite can live. Zero means forever.
pub const MAX_INVITE_MAX_AGE_SECONDS: u32 = 604_800;
/// The most uses an invite can be limited to. Zero means unlimited.
pub const MAX_INVITE_MAX_USES: u32 = 100;
/// Discord's cap on an emoji image: 256 KiB.
pub const MAX_EMOJI_BYTES: u64 = 262_144;

#[derive(Clone, Debug, PartialEq, Eq)]
pub struct GuildInviteInfo {
    pub code: String,
    pub channel_id: Option<Id<ChannelMarker>>,
    pub channel_name: Option<String>,
    pub inviter: Option<String>,
    pub uses: u32,
    /// `None` is unlimited.
    pub max_uses: Option<u32>,
    /// `None` never expires.
    pub max_age_seconds: Option<u32>,
    pub temporary: bool,
}

#[derive(Clone, Debug, PartialEq, Eq)]
pub struct AuditLogEntryInfo {
    pub id: Id<UserMarker>,
    pub actor: Option<String>,
    pub action: AuditLogAction,
    pub target: Option<String>,
    pub reason: Option<String>,
}

#[derive(Clone, Copy, Debug, PartialEq, Eq, Structural)]
pub enum AuditLogAction {
    GuildUpdate,
    ChannelCreate,
    ChannelUpdate,
    ChannelDelete,
    MemberKick,
    MemberBanAdd,
    MemberBanRemove,
    MemberUpdate,
    MemberRoleUpdate,
    RoleCreate,
    RoleUpdate,
    RoleDelete,
    InviteCreate,
    InviteDelete,
    MessageDelete,
    EmojiCreate,
    EmojiUpdate,
    EmojiDelete,
    Other(u16),
}

pub open spec fn audit_action_of(code: u16) -> AuditLogAction {
    match code {
        1 => AuditLogAction::GuildUpdate,
        10 => AuditLogAction::ChannelCreate,
        11 => AuditLogAction::ChannelUpdate,
        12 => AuditLogAction::ChannelDelete,
        20 => AuditLogAction::MemberKick,
        22 => AuditLogAction::MemberBanAdd,
        23 => AuditLogAction::MemberBanRemove,
        24 => AuditLogAction::MemberUpdate,
        25 => AuditLogAction::MemberRoleUpdate,
        30 => AuditLogAction::RoleCreate,
        31 => AuditLogAction::RoleUpdate,
        32 => AuditLogAction::RoleDelete,
        40 => AuditLogAction::InviteCreate,
        42 => AuditLogAction::InviteDelete,
        72 => AuditLogAction::MessageDelete,
        60 => AuditLogAction::EmojiCreate,
        61 => AuditLogAction::EmojiUpdate,
        62 => AuditLogAction::EmojiDelete,
        other => AuditLogAction::Other(other),
    }
}

pub open spec fn audit_action_label(a: AuditLogAction) -> Seq<char> {
    match a {
        AuditLogAction::GuildUpdate => "updated the server"@,
        AuditLogAction::ChannelCreate => "created a channel"@,
        AuditLogAction::ChannelUpdate => "updated a channel"@,
        AuditLogAction::ChannelDelete => "deleted a channel"@,
        AuditLogAction::MemberKick => "kicked"@,
        AuditLogAction::MemberBanAdd => "banned"@,
        AuditLogAction::MemberBanRemove => "unbanned"@,
        AuditLogAction::MemberUpdate => "updated"@,
        AuditLogAction::MemberRoleUpdate => "changed roles for"@,
        AuditLogAction::RoleCreate => "created a role"@,
        AuditLogAction::RoleUpdate => "updated a role"@,
        AuditLogAction::RoleDelete => "deleted a role"@,
        AuditLogAction::InviteCreate => "created an invite"@,
        AuditLogAction::InviteDelete => "revoked an invite"@,
        AuditLogAction::MessageDelete => "deleted a message"@,
        AuditLogAction::EmojiCreate => "added an emoji"@,
        AuditLogAction::EmojiUpdate => "renamed an emoji"@,
        AuditLogAction::EmojiDelete => "removed an emoji"@,
        AuditLogAction::Other(code) => "did something (action "@ + decimal(code as nat) + ")"@,
    }
}

impl AuditLogAction {
    pub fn from_code(code: u16) -> (a: Self)
        ensures
            a == audit_action_of(code),
    {
        match code {
            1 => AuditLogAction::GuildUpdate,
            10 => AuditLogAction::ChannelCreate,
            11 => AuditLogAction::ChannelUpdate,
            12 => AuditLogAction::ChannelDelete,
            20 => AuditLogAction::MemberKick,
            22 => AuditLogAction::MemberBanAdd,
            23 => AuditLogAction::MemberBanRemove,
            24 => AuditLogAction::MemberUpdate,
            25 => AuditLogAction::MemberRoleUpdate,
            30 => AuditLogAction::RoleCreate,
            31 => AuditLogAction::RoleUpdate,
            32 => AuditLogAction::RoleDelete,
            40 => AuditLogAction::InviteCreate,
            42 => AuditLogAction::InviteDelete,
            72 => AuditLogAction::MessageDelete,
            60 => AuditLogAction::EmojiCreate,
            61 => AuditLogAction::EmojiUpdate,
            62 => AuditLogAction::EmojiDelete,
            other => AuditLogAction::Other(other),
        }
    }

    /// How the action reads in the log; one nobody can name keeps its number.
    pub fn label(self) -> (s: String)
        ensures
            s@ == audit_action_label(self),
    {
        match self {
            AuditLogAction::GuildUpdate => owned("updated the server"),
            AuditLogAction::ChannelCreate => owned("created a channel"),
            AuditLogAction::ChannelUpdate => owned("updated a channel"),
            AuditLogAction::ChannelDelete => owned("deleted a channel"),
            AuditLogAction::MemberKick => owned("kicked"),
            AuditLogAction::MemberBanAdd => owned("banned"),
            AuditLogAction::MemberBanRemove => owned("unbanned"),
            AuditLogAction::MemberUpdate => owned("updated"),
            AuditLogAction::MemberRoleUpdate => owned("changed roles for"),
            AuditLogAction::RoleCreate => owned("created a role"),
            AuditLogAction::RoleUpdate => owned("updated a role"),
            AuditLogAction::RoleDelete => owned("deleted a role"),
            AuditLogAction::InviteCreate => owned("created an invite"),
            AuditLogAction::InviteDelete => owned("revoked an invite"),
            AuditLogAction::MessageDelete => owned("deleted a message"),
            AuditLogAction::EmojiCreate => owned("added an emoji"),
            AuditLogAction::EmojiUpdate => owned("renamed an emoji"),
            AuditLogAction::EmojiDelete => owned("removed an emoji"),
            AuditLogAction::Other(code) => concat3("did something (action ", decimal_string(code as u64).as_str(), ")"),
        }
    }
}

/// Law: an unrecognised action keeps its number.
pub proof fn law_unknown_audit_actions_keep_their_code(code: u16)
    ensures
        audit_action_of(code) is Other ==> audit_action_of(code) == AuditLogAction::Other(code),
{
}

#[derive(Clone, Debug, PartialEq, Eq)]
pub struct GuildEmojiInfo {
    pub id: Id<EmojiMarker>,
    pub name: String,
    pub animated: bool,
    /// Only some roles may use it.
    pub role_restricted: bool,
}

pub open spec fn is_emoji_char(c: char) -> bool {
    is_ascii_alphanumeric(c) || c == '_'
}

/// What Discord accepts as an emoji name: 2 to 32 characters, all ASCII
/// letters, digits or underscores.
pub open spec fn valid_emoji_name(s: Seq<char>) -> bool {
    2 <= s.len() <= 32 && forall|i: int| 0 <= i < s.len() ==> is_emoji_char(#[trigger] s[i])
}

pub open spec fn emoji_clean_char(c: char) -> char {
    if is_emoji_char(c) { c } else { '_' }
}

/// The emoji name a file suggests: the file's name up to its first dot,
/// every other character turned into an underscore and the underscores at
/// either end taken off; none when what is left is not a valid name.
pub open spec fn emoji_name_of(filename: Seq<char>) -> Option<Seq<char>> {
    let stem = before_first(after_last(filename, '/'), '.');
    let cleaned = stem.map_values(|c: char| emoji_clean_char(c));
    let trimmed = trim_start_matches_seq(trim_end_matches_seq(cleaned, '_'), '_');
    if valid_emoji_name(trimmed) { Some(trimmed) } else { None }
}

pub fn is_valid_emoji_name(name: &str) -> (b: bool)
    ensures
        b == valid_emoji_name(name@),
{
    let n = char_count(name);
    if n < 2 || n > 32 {
        return false;
    }
    let mut i: usize = 0;
    while i < n
        invariant
            n == name@.len(),
            i <= n,
            forall|k: int| 0 <= k < i ==> is_emoji_char(#[trigger] name@[k]),
        decreases n - i,
    {
        let c = name.get_char(i);
        if !(ascii_alphanumeric(c) || c == '_') {
            return false;
        }
        i = i + 1;
    }
    true
}

pub fn emoji_name_from_filename(filename: &str) -> (name: Option<String>)
    ensures
        name.deep_view() == emoji_name_of(filename@),
{
    let stem = before_first_char(after_last_char(filename, '/'), '.');
    let n = stem.unicode_len();
    let mut cleaned = String::new();
    let mut i: usize = 0;
    while i < n
        invariant
            n == stem@.len(),
            i <= n,
            cleaned@ == stem@.take(i as int).map_values(|c: char| emoji_clean_char(c)),
        decreases n - i,
    {
        let c = stem.get_char(i);
        if ascii_alphanumeric(c) || c == '_' {
            push_char(&mut cleaned, c);
        } else {
            push_char(&mut cleaned, '_');
        }
        assert(cleaned@ =~= stem@.take(i + 1).map_values(|c: char| emoji_clean_char(c)));
        i = i + 1;
    }
    assert(stem@.take(n as int) =~= stem@);
    let trimmed = trim_start_matches_char(trim_end_matches_char(cleaned.as_str(), '_'), '_');
    if is_valid_emoji_name(trimmed) {
        Some(owned(trimmed))
    } else {
        None
    }
}

pub open spec fn clamp_age(seconds: u32) -> u32 {
    if seconds <= MAX_INVITE_MAX_AGE_SECONDS { seconds } else { MAX_INVITE_MAX_AGE_SECONDS }
}

pub open spec fn clamp_uses(uses: u32) -> u32 {
    if uses <= MAX_INVITE_MAX_USES { uses } else { MAX_INVITE_MAX_USES }
}

/// An invite lifetime Discord accepts; zero, never expiring, survives.
pub fn clamp_invite_max_age(seconds: u32) -> (s: u32)
    ensures
        s == clamp_age(seconds),
{
    if seconds <= MAX_INVITE_MAX_AGE_SECONDS { seconds } else { MAX_INVITE_MAX_AGE_SECONDS }
}

/// An invite use limit Discord accepts; zero, unlimited, survives.
pub fn clamp_invite_max_uses(uses: u32) -> (u: u32)
    ensures
        u == clamp_uses(uses),
{
    if uses <= MAX_INVITE_MAX_USES { uses } else { MAX_INVITE_MAX_USES }
}

/// The body that creates an invite, its limits clamped.
pub fn invite_body(max_age_seconds: u32, max_uses: u32, temporary: bool) -> (body: JsonValue)
    ensures
        body.model() is Object,
        forall|k: Seq<char>| #[trigger] obj_get(entries(body.model()), k) == if k == "temporary"@ {
            Some(Json::Bool(temporary))
        } else if k == "max_uses"@ {
            Some(Json::Num(clamp_uses(max_uses) as int))
        } else if k == "max_age"@ {
            Some(Json::Num(clamp_age(max_age_seconds) as int))
        } else {
            None
        },
{
    let mut fields: Vec<(String, JsonValue)> = Vec::new();
    put(&mut fields, "max_age", JsonValue::UInt(clamp_invite_max_age(max_age_seconds) as u64));
    put(&mut fields, "max_uses", JsonValue::UInt(clamp_invite_max_uses(max_uses) as u64));
    put(&mut fields, "temporary", JsonValue::Bool(temporary));
    JsonValue::Object(fields)
}

/// Why an emoji cannot be created from a name and an image.
#[derive(Clone, Debug, PartialEq, Eq)]
pub enum EmojiUploadProblem {
    /// The name is not letters, numbers and underscores, 2 to 32 of them.
    InvalidName,
    /// The image is larger than Discord takes.
    TooLarge,
}

impl EmojiUploadProblem {
    pub fn message(&self) -> (s: &'static str)
        ensures
            s@ == match self {
                EmojiUploadProblem::InvalidName => "an emoji name may only contain letters, numbers and underscores"@,
                EmojiUploadProblem::TooLarge => "an emoji image must be under 256 KB"@,
            },
    {
        match self {
            EmojiUploadProblem::InvalidName => "an emoji name may only contain letters, numbers and underscores",
            EmojiUploadProblem::TooLarge => "an emoji image must be under 256 KB",
        }
    }
}

pub open spec fn emoji_body_field(name: Seq<char>, content_type: Seq<char>, bytes: Seq<u8>, k: Seq<char>) -> Option<Json> {
    if k == "roles"@ {
        Some(Json::Array(Seq::empty()))
    } else if k == "image"@ {
        Some(Json::Str(data_uri(content_type, bytes)))
    } else if k == "name"@ {
        Some(Json::Str(name))
    } else {
        None
    }
}

/// The body that creates an emoji: the name, the image as a data URI and
/// no role restriction. Refused when the name is not one Discord takes or
/// the image is over its size cap.
pub fn create_emoji_body(name: &str, content_type: &str, bytes: &[u8]) -> (r: Result<JsonValue, EmojiUploadProblem>)
    ensures
        !valid_emoji_name(name@) ==> r == Err::<JsonValue, EmojiUploadProblem>(EmojiUploadProblem::InvalidName),
        valid_emoji_name(name@) && bytes@.len() > MAX_EMOJI_BYTES ==> r == Err::<JsonValue, EmojiUploadProblem>(
            EmojiUploadProblem::TooLarge,
        ),
        valid_emoji_name(name@) && bytes@.len() <= MAX_EMOJI_BYTES ==> (r matches Ok(body) && body.model() is Object
            && forall|k: Seq<char>| #[trigger] obj_get(entries(body.model()), k) == emoji_body_field(name@, content_type@, bytes@, k)),
{
    if !is_valid_emoji_name(name) {
        return Err(EmojiUploadProblem::InvalidName);
    }
    if bytes.len() as u64 > MAX_EMOJI_BYTES {
        return Err(EmojiUploadProblem::TooLarge);
    }
    let uri = data_uri_string(content_type, bytes);
    let mut fields: Vec<(String, JsonValue)> = Vec::new();
    put(&mut fields, "name", str_value(name));
    put(&mut fields, "image", JsonValue::Str(uri));
    let roles: Vec<JsonValue> = Vec::new();
    assert(items_model(roles@) =~= Seq::<Json>::empty());
    put(&mut fields, "roles", JsonValue::Array(roles));
    Ok(JsonValue::Object(fields))
}

/// One custom emoji as Discord sends it.
pub struct EmojiBody {
    pub id: Option<Id<EmojiMarker>>,
    pub name: Option<String>,
    pub animated: bool,
    pub roles: Vec<String>,
}

/// The emoji a body describes; one with no id cannot be renamed or deleted
/// and gives none.
pub fn emoji_from_body(body: EmojiBody) -> (e: Option<GuildEmojiInfo>)
    ensures
        e is Some <==> body.id is Some,
        e matches Some(e) ==> {
            &&& Some(e.id) == body.id
            &&& e.name@ == match body.name {
                Some(n) => n@,
                None => Seq::empty(),
            }
            &&& e.animated == body.animated
            &&& e.role_restricted == (body.roles@.len() > 0)
        },
{
    let id = match body.id {
        Some(id) => id,
        None => return None,
    };
    Some(GuildEmojiInfo {
        id,
        name: match body.name {
            Some(n) => n,
            None => String::new(),
        },
        animated: body.animated,
        role_restricted: body.roles.len() > 0,
    })
}

/// One invite as Discord sends it, its channel and inviter flattened.
pub struct InviteBody {
    pub code: String,
    pub channel_id: Option<Id<ChannelMarker>>,
    pub channel_name: Option<String>,
    pub inviter_username: Option<String>,
    pub inviter_global_name: Option<String>,
    pub uses: u32,
    pub max_uses: u32,
    pub max_age: u32,
    pub temporary: bool,
}

/// An invite as the panel shows it: the inviter by display name, else
/// username; Discord's zero for "no limit" in either field as none rather
/// than as used up.
pub fn invite_from_body(body: InviteBody) -> (i: GuildInviteInfo)
    ensures
        i.code == body.code,
        i.channel_id == body.channel_id,
        i.channel_name == body.channel_name,
        i.inviter.deep_view() == match body.inviter_global_name {
            Some(g) => Some(g@),
            None => body.inviter_username.deep_view(),
        },
        i.uses == body.uses,
        i.max_uses == if body.max_uses > 0 { Some(body.max_uses) } else { None },
        i.max_age_seconds == if body.max_age > 0 { Some(body.max_age) } else { None },
        i.temporary == body.temporary,
{
    GuildInviteInfo {
        code: body.code,
        channel_id: body.channel_id,
        channel_name: body.channel_name,
        inviter: match body.inviter_global_name {
            Some(g) => Some(g),
            None => body.inviter_username,
        },
        uses: body.uses,
        max_uses: if body.max_uses > 0 { Some(body.max_uses) } else { None },
        max_age_seconds: if body.max_age > 0 { Some(body.max_age) } else { None },
        temporary: body.temporary,
    }
}


/// An audit log entry as Discord sends it.
pub struct AuditLogEntryBody {
    pub id: Option<Id<UserMarker>>,
    pub user_id: Option<Id<UserMarker>>,
    pub target_id: Option<String>,
    pub action_type: u16,
    pub reason: Option<String>,
}

/// A user the audit log response names, for resolving its entries.
pub struct AuditLogUser {
    pub id: Id<UserMarker>,
    pub username: Option<String>,
    pub global_name: Option<String>,
}

pub open spec fn opt_text(o: Option<String>) -> Option<Seq<char>> {
    match o {
        Some(s) => Some(s@),
        None => None,
    }
}

/// The name the response gives a user: the first listed with that id, by
/// its display name or else its user name.
pub open spec fn name_in(users: Seq<AuditLogUser>, id: u64) -> Option<Seq<char>>
    decreases users.len(),
{
    if users.len() == 0 {
        None
    } else if users[0].id@ == id {
        match users[0].global_name {
            Some(g) => Some(g@),
            None => opt_text(users[0].username),
        }
    } else {
        name_in(users.drop_first(), id)
    }
}

/// What an entry's target reads as: the named user when it is one, and
/// the raw id otherwise.
pub open spec fn target_of(users: Seq<AuditLogUser>, target: Option<String>) -> Option<Seq<char>> {
    match target {
        Some(t) => match parse_u64_seq(t@) {
            Some(raw) => match name_in(users, raw) {
                Some(n) => Some(n),
                None => Some(t@),
            },
            None => Some(t@),
        },
        None => None,
    }
}

pub open spec fn target_is_zero(target: Option<String>) -> bool {
    match target {
        Some(t) => parse_u64_seq(t@) == Some(0u64),
        None => false,
    }
}

fn name_of(users: &Vec<AuditLogUser>, id: u64) -> (r: Option<String>)
    ensures
        opt_text(r) == name_in(users@, id),
{
    let n = users.len();
    let mut i: usize = 0;
    proof {
        assert(users@.skip(0) =~= users@);
    }
    while i < n
        invariant
            n == users@.len(),
            i <= n,
            name_in(users@, id) == name_in(users@.skip(i as int), id),
        decreases n - i,
    {
        proof {
            assert(users@.skip(i as int)[0] == users@[i as int]);
            assert(users@.skip(i as int).drop_first() =~= users@.skip(i + 1));
        }
        if users[i].id.get() == id {
            return match &users[i].global_name {
                Some(g) => Some(owned(g.as_str())),
                None => match &users[i].username {
                    Some(u) => Some(owned(u.as_str())),
                    None => None,
                },
            };
        }
        i = i + 1;
    }
    None
}

/// One entry as the log shows it: without an id there is nothing to show,
/// so none; the actor and a target that is a user are named from the
/// users the response carries.
pub fn audit_entry_from_body(entry: &AuditLogEntryBody, users: &Vec<AuditLogUser>) -> (e: Option<AuditLogEntryInfo>)
    requires
        !target_is_zero(entry.target_id),
    ensures
        e is Some <==> entry.id is Some,
        e matches Some(e) ==> {
            &&& e.id == entry.id.unwrap()
            &&& opt_text(e.actor) == match entry.user_id {
                Some(u) => name_in(users@, u@),
                None => None,
            }
            &&& e.action == audit_action_of(entry.action_type)
            &&& opt_text(e.target) == target_of(users@, entry.target_id)
            &&& opt_text(e.reason) == opt_text(entry.reason)
        },
{
    let id = match entry.id {
        Some(id) => id,
        None => return None,
    };
    let actor = match entry.user_id {
        Some(u) => name_of(users, u.get()),
        None => None,
    };
    let target = match &entry.target_id {
        Some(t) => match parse_u64(t.as_str()) {
            Some(raw) => match name_of(users, raw) {
                Some(n) => Some(n),
                None => Some(owned(t.as_str())),
            },
            None => Some(owned(t.as_str())),
        },
        None => None,
    };
    Some(AuditLogEntryInfo {
        id,
        actor,
        action: AuditLogAction::from_code(entry.action_type),
        target,
        reason: match &entry.reason {
            Some(r) => Some(owned(r.as_str())),
            None => None,
        },
    })
}

pub open spec fn entry_view(e: AuditLogEntryInfo) -> (u64, Option<Seq<char>>, AuditLogAction, Option<Seq<char>>, Option<Seq<char>>) {
    (e.id@, opt_text(e.actor), e.action, opt_text(e.target), opt_text(e.reason))
}

pub open spec fn body_entry_view(b: AuditLogEntryBody, users: Seq<AuditLogUser>) -> (u64, Option<Seq<char>>, AuditLogAction, Option<Seq<char>>, Option<Seq<char>>) {
    (
        b.id.unwrap()@,
        match b.user_id {
            Some(u) => name_in(users, u@),
            None => None,
        },
        audit_action_of(b.action_type),
        target_of(users, b.target_id),
        opt_text(b.reason),
    )
}

/// The entries with an id, in order, as the log shows them.
pub open spec fn log_of(es: Seq<AuditLogEntryBody>, users: Seq<AuditLogUser>) -> Seq<(u64, Option<Seq<char>>, AuditLogAction, Option<Seq<char>>, Option<Seq<char>>)>
    decreases es.len(),
{
    if es.len() == 0 {
        Seq::empty()
    } else {
        let rest = log_of(es.drop_last(), users);
        if es.last().id is Some { rest.push(body_entry_view(es.last(), users)) } else { rest }
    }
}

/// The log as shown: every entry that has an id, in order.
pub fn audit_entries_from_body(entries: &Vec<AuditLogEntryBody>, users: &Vec<AuditLogUser>) -> (log: Vec<AuditLogEntryInfo>)
    requires
        forall|i: int| 0 <= i < entries@.len() ==> !target_is_zero(#[trigger] entries@[i].target_id),
    ensures
        log@.map_values(|e: AuditLogEntryInfo| entry_view(e)) == log_of(entries@, users@),
{
    let mut log: Vec<AuditLogEntryInfo> = Vec::new();
    let n = entries.len();
    let mut i: usize = 0;
    proof {
        assert(entries@.take(0) =~= Seq::<AuditLogEntryBody>::empty());
        assert(log@.map_values(|e: AuditLogEntryInfo| entry_view(e)) =~= Seq::empty());
    }
    while i < n
        invariant
            n == entries@.len(),
            i <= n,
            forall|j: int| 0 <= j < entries@.len() ==> !target_is_zero(#[trigger] entries@[j].target_id),
            log@.map_values(|e: AuditLogEntryInfo| entry_view(e)) == log_of(entries@.take(i as int), users@),
        decreases n - i,
    {
        proof {
            assert(entries@.take(i + 1).drop_last() =~= entries@.take(i as int));
            assert(entries@.take(i + 1).last() == entries@[i as int]);
        }
        match audit_entry_from_body(&entries[i], users) {
            Some(e) => {
                let ghost before = log@;
                log.push(e);
                proof {
                    assert(log@.map_values(|e: AuditLogEntryInfo| entry_view(e)) =~= before.map_values(|e: AuditLogEntryInfo| entry_view(e)).push(entry_view(e)));
                }
            },
            None => {},
        }
        i = i + 1;
    }
    proof {
        assert(entries@.take(n as int) =~= entries@);
    }
    log
}

} // verus!
