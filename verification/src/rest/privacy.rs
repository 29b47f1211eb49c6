//! Privacy and safety settings, written through the same legacy settings
//! endpoint they are read from.
use vstd::prelude::*;

use crate::json::{entries, fields_model, insert_sorted, obj_get, put, Json, JsonValue};

verus! {

/// Which direct messages Discord scans for explicit images.
#[derive(Clone, Copy, Debug, PartialEq, Eq, Structural)]
pub enum DmScanLevel {
    Off,
    NonFriends,
    Everyone,
}

pub open spec fn scan_level_code(l: DmScanLevel) -> u8 {
    match l {
        DmScanLevel::Off => 0,
        DmScanLevel::NonFriends => 1,
        DmScanLevel::Everyone => 2,
    }
}

pub open spec fn scan_level_of(code: u64) -> DmScanLevel {
    match code {
        1 => DmScanLevel::NonFriends,
        2 => DmScanLevel::Everyone,
        _ => DmScanLevel::Off,
    }
}

pub open spec fn scan_level_next(l: DmScanLevel) -> DmScanLevel {
    match l {
        DmScanLevel::Off => DmScanLevel::NonFriends,
        DmScanLevel::NonFriends => DmScanLevel::Everyone,
        DmScanLevel::Everyone => DmScanLevel::Off,
    }
}

pub open spec fn scan_level_label(l: DmScanLevel) -> Seq<char> {
    match l {
        DmScanLevel::Off => "Do not scan"@,
        DmScanLevel::NonFriends => "Scan messages from non-friends"@,
        DmScanLevel::Everyone => "Scan every direct message"@,
    }
}

impl DmScanLevel {
    pub fn all() -> (v: [DmScanLevel; 3])
        ensures
            v@ == seq![DmScanLevel::Off, DmScanLevel::NonFriends, DmScanLevel::Everyone],
    {
        [DmScanLevel::Off, DmScanLevel::NonFriends, DmScanLevel::Everyone]
    }

    pub fn code(self) -> (c: u8)
        ensures
            c == scan_level_code(self),
    {
        match self {
            DmScanLevel::Off => 0,
            DmScanLevel::NonFriends => 1,
            DmScanLevel::Everyone => 2,
        }
    }

    /// The level for a code; anything unrecognised reads as code 0, which
    /// is Discord's own default.
    pub fn from_code(code: u64) -> (l: Self)
        ensures
            l == scan_level_of(code),
    {
        match code {
            1 => DmScanLevel::NonFriends,
            2 => DmScanLevel::Everyone,
            _ => DmScanLevel::Off,
        }
    }

    pub fn label(self) -> (s: &'static str)
        ensures
            s@ == scan_level_label(self),
    {
        match self {
            DmScanLevel::Off => "Do not scan",
            DmScanLevel::NonFriends => "Scan messages from non-friends",
            DmScanLevel::Everyone => "Scan every direct message",
        }
    }

    /// The next level in the cycle the panel steps through.
    pub fn next(self) -> (l: Self)
        ensures
            l == scan_level_next(self),
    {
        match self {
            DmScanLevel::Off => DmScanLevel::NonFriends,
            DmScanLevel::NonFriends => DmScanLevel::Everyone,
            DmScanLevel::Everyone => DmScanLevel::Off,
        }
    }
}

/// Law: a level reads back from its code as itself, and stepping three
/// times returns to where it started, passing every level.
pub proof fn law_scan_levels_cycle(l: DmScanLevel)
    ensures
        scan_level_of(scan_level_code(l) as u64) == l,
        scan_level_next(scan_level_next(scan_level_next(l))) == l,
        scan_level_next(l) != l,
        scan_level_next(scan_level_next(l)) != l,
{
}

/// Who may send a friend request.
#[derive(Clone, Copy, Debug, PartialEq, Eq)]
pub struct FriendSources {
    pub everyone: bool,
    pub mutual_friends: bool,
    pub mutual_guilds: bool,
}

impl Default for FriendSources {
    fn default() -> (f: Self)
        ensures
            !f.everyone && !f.mutual_friends && !f.mutual_guilds,
    {
        FriendSources { everyone: false, mutual_friends: false, mutual_guilds: false }
    }
}

/// The friend-source flags as the user settings payload carries them.
#[derive(Clone, Copy, Debug, PartialEq, Eq)]
pub struct UserFriendSourceFlagsInfo {
    pub all: Option<bool>,
    pub mutual_friends: Option<bool>,
    pub mutual_guilds: Option<bool>,
}

pub open spec fn flag_or_false(f: Option<bool>) -> bool {
    f == Some(true)
}

/// The flags as sent: only those that are set, as Discord's own client
/// does (it treats an absent flag as false).
pub open spec fn sources_json(s: FriendSources) -> Json {
    let a: Seq<(Seq<char>, Json)> = if s.everyone { insert_sorted(Seq::empty(), "all"@, Json::Bool(true)) } else { Seq::empty() };
    let b = if s.mutual_friends { insert_sorted(a, "mutual_friends"@, Json::Bool(true)) } else { a };
    let c = if s.mutual_guilds { insert_sorted(b, "mutual_guilds"@, Json::Bool(true)) } else { b };
    Json::Object(c)
}

impl FriendSources {
    /// All three off: nobody can send a request, a real state rather than
    /// nothing loaded.
    pub fn nobody(self) -> (b: bool)
        ensures
            b == (!self.everyone && !self.mutual_friends && !self.mutual_guilds),
    {
        !self.everyone && !self.mutual_friends && !self.mutual_guilds
    }

    pub fn to_body(self) -> (body: JsonValue)
        ensures
            body.model() == sources_json(self),
    {
        let mut flags: Vec<(String, JsonValue)> = Vec::new();
        assert(fields_model(flags@) =~= Seq::<(Seq<char>, Json)>::empty());
        if self.everyone {
            put(&mut flags, "all", JsonValue::Bool(true));
        }
        if self.mutual_friends {
            put(&mut flags, "mutual_friends", JsonValue::Bool(true));
        }
        if self.mutual_guilds {
            put(&mut flags, "mutual_guilds", JsonValue::Bool(true));
        }
        JsonValue::Object(flags)
    }

    /// The sources the settings payload describes; an absent flag is off.
    pub fn from_info(info: &UserFriendSourceFlagsInfo) -> (f: Self)
        ensures
            f.everyone == flag_or_false(info.all),
            f.mutual_friends == flag_or_false(info.mutual_friends),
            f.mutual_guilds == flag_or_false(info.mutual_guilds),
    {
        FriendSources {
            everyone: match info.all {
                Some(b) => b,
                None => false,
            },
            mutual_friends: match info.mutual_friends {
                Some(b) => b,
                None => false,
            },
            mutual_guilds: match info.mutual_guilds {
                Some(b) => b,
                None => false,
            },
        }
    }
}

/// What to change; `None` leaves a setting alone. The endpoint replaces
/// what it is given, so only changed fields are sent.
#[derive(Clone, Copy, Debug, PartialEq, Eq)]
pub struct PrivacyEdit {
    pub dm_scan_level: Option<DmScanLevel>,
    pub default_guilds_restricted: Option<bool>,
    pub friend_sources: Option<FriendSources>,
}

impl Default for PrivacyEdit {
    fn default() -> (e: Self)
        ensures
            e.dm_scan_level is None && e.default_guilds_restricted is None && e.friend_sources is None,
    {
        PrivacyEdit { dm_scan_level: None, default_guilds_restricted: None, friend_sources: None }
    }
}

pub open spec fn privacy_edit_field(e: PrivacyEdit, k: Seq<char>) -> Option<Json> {
    if k == "friend_source_flags"@ && e.friend_sources is Some {
        Some(sources_json(e.friend_sources.unwrap()))
    } else if k == "default_guilds_restricted"@ && e.default_guilds_restricted is Some {
        Some(Json::Bool(e.default_guilds_restricted.unwrap()))
    } else if k == "explicit_content_filter"@ && e.dm_scan_level is Some {
        Some(Json::Num(scan_level_code(e.dm_scan_level.unwrap()) as int))
    } else {
        None
    }
}

impl PrivacyEdit {
    pub fn is_empty(&self) -> (b: bool)
        ensures
            b == (self.dm_scan_level is None && self.default_guilds_restricted is None && self.friend_sources is None),
    {
        self.dm_scan_level.is_none() && self.default_guilds_restricted.is_none() && self.friend_sources.is_none()
    }

    pub fn to_body(&self) -> (body: JsonValue)
        ensures
            body.model() is Object,
            forall|k: Seq<char>| #[trigger] obj_get(entries(body.model()), k) == privacy_edit_field(*self, k),
    {
        let mut fields: Vec<(String, JsonValue)> = Vec::new();
        if let Some(level) = self.dm_scan_level {
            put(&mut fields, "explicit_content_filter", JsonValue::UInt(level.code() as u64));
        }
        if let Some(restricted) = self.default_guilds_restricted {
            put(&mut fields, "default_guilds_restricted", JsonValue::Bool(restricted));
        }
        if let Some(sources) = self.friend_sources {
            put(&mut fields, "friend_source_flags", sources.to_body());
        }
        JsonValue::Object(fields)
    }
}

/// One row of the privacy panel.
#[derive(Clone, Copy, Debug, PartialEq, Eq, Structural)]
pub enum PrivacySetting {
    DmScanning,
    NewGuildDirectMessages,
    FriendsEveryone,
    FriendsMutualFriends,
    FriendsMutualGuilds,
}

/// The settings as last read; `None` for one that never arrived.
#[derive(Clone, Copy, Debug, PartialEq, Eq)]
pub struct PrivacyState {
    pub dm_scan_level: Option<DmScanLevel>,
    pub default_guilds_restricted: Option<bool>,
    pub friend_sources: Option<FriendSources>,
}

impl Default for PrivacyState {
    fn default() -> (s: Self)
        ensures
            s.dm_scan_level is None && s.default_guilds_restricted is None && s.friend_sources is None,
    {
        PrivacyState { dm_scan_level: None, default_guilds_restricted: None, friend_sources: None }
    }
}

pub open spec fn setting_at(index: usize) -> Option<PrivacySetting> {
    match index {
        0 => Some(PrivacySetting::DmScanning),
        1 => Some(PrivacySetting::NewGuildDirectMessages),
        2 => Some(PrivacySetting::FriendsEveryone),
        3 => Some(PrivacySetting::FriendsMutualFriends),
        4 => Some(PrivacySetting::FriendsMutualGuilds),
        _ => None,
    }
}

/// Whether a row is on, or `None` when its setting never arrived. The new
/// server row is the permission, so the stored restriction is inverted.
pub open spec fn setting_is_on(s: PrivacySetting, state: PrivacyState) -> Option<bool> {
    match s {
        PrivacySetting::DmScanning => match state.dm_scan_level {
            Some(l) => Some(l != DmScanLevel::Off),
            None => None,
        },
        PrivacySetting::NewGuildDirectMessages => match state.default_guilds_restricted {
            Some(r) => Some(!r),
            None => None,
        },
        PrivacySetting::FriendsEveryone => match state.friend_sources {
            Some(f) => Some(f.everyone),
            None => None,
        },
        PrivacySetting::FriendsMutualFriends => match state.friend_sources {
            Some(f) => Some(f.mutual_friends),
            None => None,
        },
        PrivacySetting::FriendsMutualGuilds => match state.friend_sources {
            Some(f) => Some(f.mutual_guilds),
            None => None,
        },
    }
}

/// The edit activating a row sends: it names only the field it changes.
/// DM scanning steps to the next level; the new-server row flips its flag;
/// a friend-source row flips its own flag and carries the other two.
pub open spec fn setting_toggled(s: PrivacySetting, state: PrivacyState) -> PrivacyEdit {
    let none = PrivacyEdit { dm_scan_level: None, default_guilds_restricted: None, friend_sources: None };
    let sources = match state.friend_sources {
        Some(f) => f,
        None => FriendSources { everyone: false, mutual_friends: false, mutual_guilds: false },
    };
    match s {
        PrivacySetting::DmScanning => PrivacyEdit {
            dm_scan_level: Some(
                scan_level_next(
                    match state.dm_scan_level {
                        Some(l) => l,
                        None => DmScanLevel::Off,
                    },
                ),
            ),
            ..none
        },
        PrivacySetting::NewGuildDirectMessages => PrivacyEdit {
            default_guilds_restricted: Some(!flag_or_false(state.default_guilds_restricted)),
            ..none
        },
        PrivacySetting::FriendsEveryone => PrivacyEdit {
            friend_sources: Some(FriendSources { everyone: !sources.everyone, ..sources }),
            ..none
        },
        PrivacySetting::FriendsMutualFriends => PrivacyEdit {
            friend_sources: Some(FriendSources { mutual_friends: !sources.mutual_friends, ..sources }),
            ..none
        },
        PrivacySetting::FriendsMutualGuilds => PrivacyEdit {
            friend_sources: Some(FriendSources { mutual_guilds: !sources.mutual_guilds, ..sources }),
            ..none
        },
    }
}

impl PrivacySetting {
    /// Every row, in panel order.
    pub fn all() -> (v: [PrivacySetting; 5])
        ensures
            forall|i: int| 0 <= i < 5 ==> Some(#[trigger] v@[i]) == setting_at(i as usize),
    {
        [
            PrivacySetting::DmScanning,
            PrivacySetting::NewGuildDirectMessages,
            PrivacySetting::FriendsEveryone,
            PrivacySetting::FriendsMutualFriends,
            PrivacySetting::FriendsMutualGuilds,
        ]
    }

    /// The row at a panel index.
    pub fn at(index: usize) -> (s: Option<Self>)
        ensures
            s == setting_at(index),
    {
        match index {
            0 => Some(PrivacySetting::DmScanning),
            1 => Some(PrivacySetting::NewGuildDirectMessages),
            2 => Some(PrivacySetting::FriendsEveryone),
            3 => Some(PrivacySetting::FriendsMutualFriends),
            4 => Some(PrivacySetting::FriendsMutualGuilds),
            _ => None,
        }
    }

    pub fn label(self) -> (s: &'static str)
        ensures
            s@ == match self {
                PrivacySetting::DmScanning => "Scan direct messages"@,
                PrivacySetting::NewGuildDirectMessages => "New servers may send you direct messages"@,
                PrivacySetting::FriendsEveryone => "Friend requests from everyone"@,
                PrivacySetting::FriendsMutualFriends => "Friend requests from friends of friends"@,
                PrivacySetting::FriendsMutualGuilds => "Friend requests from server members"@,
            },
    {
        match self {
            PrivacySetting::DmScanning => "Scan direct messages",
            PrivacySetting::NewGuildDirectMessages => "New servers may send you direct messages",
            PrivacySetting::FriendsEveryone => "Friend requests from everyone",
            PrivacySetting::FriendsMutualFriends => "Friend requests from friends of friends",
            PrivacySetting::FriendsMutualGuilds => "Friend requests from server members",
        }
    }

    pub fn detail(self) -> (s: &'static str)
        ensures
            s@ == match self {
                PrivacySetting::DmScanning => "Whether Discord scans direct messages for explicit images."@,
                PrivacySetting::NewGuildDirectMessages => "Applies to servers you join from now on, not the ones you are in."@,
                PrivacySetting::FriendsEveryone => "Covers the other two on its own."@,
                PrivacySetting::FriendsMutualFriends => "Anyone who shares a friend with you."@,
                PrivacySetting::FriendsMutualGuilds => "Anyone in a server you are also in."@,
            },
    {
        match self {
            PrivacySetting::DmScanning => "Whether Discord scans direct messages for explicit images.",
            PrivacySetting::NewGuildDirectMessages => "Applies to servers you join from now on, not the ones you are in.",
            PrivacySetting::FriendsEveryone => "Covers the other two on its own.",
            PrivacySetting::FriendsMutualFriends => "Anyone who shares a friend with you.",
            PrivacySetting::FriendsMutualGuilds => "Anyone in a server you are also in.",
        }
    }

    pub fn is_on(self, state: &PrivacyState) -> (b: Option<bool>)
        ensures
            b == setting_is_on(self, *state),
    {
        match self {
            PrivacySetting::DmScanning => match state.dm_scan_level {
                Some(l) => Some(!matches!(l, DmScanLevel::Off)),
                None => None,
            },
            PrivacySetting::NewGuildDirectMessages => match state.default_guilds_restricted {
                Some(r) => Some(!r),
                None => None,
            },
            PrivacySetting::FriendsEveryone => match state.friend_sources {
                Some(f) => Some(f.everyone),
                None => None,
            },
            PrivacySetting::FriendsMutualFriends => match state.friend_sources {
                Some(f) => Some(f.mutual_friends),
                None => None,
            },
            PrivacySetting::FriendsMutualGuilds => match state.friend_sources {
                Some(f) => Some(f.mutual_guilds),
                None => None,
            },
        }
    }

    /// What the row reads on the right: only DM scanning has more than two
    /// states, and reads "Unknown" when its level never arrived.
    pub fn value(self, state: &PrivacyState) -> (s: Option<&'static str>)
        ensures
            s.deep_view() == match self {
                PrivacySetting::DmScanning => Some(
                    match state.dm_scan_level {
                        Some(l) => scan_level_label(l),
                        None => "Unknown"@,
                    },
                ),
                _ => None,
            },
    {
        match self {
            PrivacySetting::DmScanning => Some(
                match state.dm_scan_level {
                    Some(l) => l.label(),
                    None => "Unknown",
                },
            ),
            _ => None,
        }
    }

    pub fn toggled(self, state: &PrivacyState) -> (e: PrivacyEdit)
        ensures
            e == setting_toggled(self, *state),
    {
        let mut edit = PrivacyEdit::default();
        match self {
            PrivacySetting::DmScanning => {
                let current = match state.dm_scan_level {
                    Some(l) => l,
                    None => DmScanLevel::Off,
                };
                edit.dm_scan_level = Some(current.next());
            },
            PrivacySetting::NewGuildDirectMessages => {
                let restricted = match state.default_guilds_restricted {
                    Some(r) => r,
                    None => false,
                };
                edit.default_guilds_restricted = Some(!restricted);
            },
            _ => {
                let mut sources = match state.friend_sources {
                    Some(f) => f,
                    None => FriendSources::default(),
                };
                match self {
                    PrivacySetting::FriendsEveryone => sources.everyone = !sources.everyone,
                    PrivacySetting::FriendsMutualFriends => sources.mutual_friends = !sources.mutual_friends,
                    _ => sources.mutual_guilds = !sources.mutual_guilds,
                }
                edit.friend_sources = Some(sources);
            },
        }
        edit
    }
}

/// A state with an edit applied.
pub open spec fn applied(state: PrivacyState, e: PrivacyEdit) -> PrivacyState {
    PrivacyState {
        dm_scan_level: if e.dm_scan_level is Some { e.dm_scan_level } else { state.dm_scan_level },
        default_guilds_restricted: if e.default_guilds_restricted is Some {
            e.default_guilds_restricted
        } else {
            state.default_guilds_restricted
        },
        friend_sources: if e.friend_sources is Some { e.friend_sources } else { state.friend_sources },
    }
}

/// Law: every row's edit names exactly one field, and once applied, a row
/// that is on or off reads the other way, while every row of another field
/// reads as before.
pub proof fn law_a_row_edits_exactly_its_field(s: PrivacySetting, other: PrivacySetting, state: PrivacyState)
    ensures
        ({
            let e = setting_toggled(s, state);
            (e.dm_scan_level is Some) as int + (e.default_guilds_restricted is Some) as int + (e.friend_sources is Some) as int == 1
        }),
        s != PrivacySetting::DmScanning && setting_is_on(s, state) is Some ==> setting_is_on(s, applied(state, setting_toggled(s, state)))
            == Some(!setting_is_on(s, state).unwrap()),
        s != other ==> setting_is_on(other, applied(state, setting_toggled(s, state))) == setting_is_on(other, state)
            || (s != PrivacySetting::DmScanning && s != PrivacySetting::NewGuildDirectMessages && state.friend_sources is None),
{
}

} // verus!
