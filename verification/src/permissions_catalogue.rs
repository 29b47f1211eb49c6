//! Every permission Discord has, as a catalogue an editor can render.
//!
//! Deprecated permissions are struck through in Discord's table and are left
//! out, which is why the bits are not contiguous: 47 was Clyde.
use vstd::prelude::*;

use crate::text::same_text;

verus! {

/// One permission, as an editor shows it.
#[derive(Clone, Copy, Debug, PartialEq, Eq)]
pub struct Permission {
    /// Its position in Discord's bitfield.
    pub bit: u8,
    /// Discord's own name, which is what the API and audit log use.
    pub name: &'static str,
    /// What to show in a list.
    pub label: &'static str,
    pub description: &'static str,
}

/// The number of permissions in the catalogue.
pub const CATALOGUE_LEN: usize = 53;

/// The single-bit mask of a bit position.
pub open spec fn mask_of(bit: u8) -> u64 {
    1u64 << bit
}

impl Permission {
    /// The bit as a mask.
    pub fn mask(self) -> (m: u64)
        requires
            self.bit < 64,
        ensures
            m == mask_of(self.bit),
    {
        1u64 << self.bit
    }

    /// Whether this permission is set in a bitfield.
    pub fn is_set(self, permissions: u64) -> (b: bool)
        requires
            self.bit < 64,
        ensures
            b == (permissions & mask_of(self.bit) != 0),
    {
        permissions & self.mask() != 0
    }
}

/// Every permission, in Discord's own order.
pub open spec fn catalogue() -> Seq<Permission> {
    seq![
        Permission {
            bit: 0,
            name: "CREATE_INSTANT_INVITE",
            label: "Create Instant Invite",
            description: "Allows creation of instant invites",
        },
        Permission {
            bit: 1,
            name: "KICK_MEMBERS",
            label: "Kick Members",
            description: "Allows kicking members",
        },
        Permission {
            bit: 2,
            name: "BAN_MEMBERS",
            label: "Ban Members",
            description: "Allows banning members",
        },
        Permission {
            bit: 3,
            name: "ADMINISTRATOR",
            label: "Administrator",
            description: "Allows all permissions and bypasses channel permission overwrites",
        },
        Permission {
            bit: 4,
            name: "MANAGE_CHANNELS",
            label: "Manage Channels",
            description: "Allows management and editing of channels",
        },
        Permission {
            bit: 5,
            name: "MANAGE_GUILD",
            label: "Manage Guild",
            description: "Allows management and editing of the guild",
        },
        Permission {
            bit: 6,
            name: "ADD_REACTIONS",
            label: "Add Reactions",
            description: "Allows for the addition of reactions to messages",
        },
        Permission {
            bit: 7,
            name: "VIEW_AUDIT_LOG",
            label: "View Audit Log",
            description: "Allows for viewing of audit logs",
        },
        Permission {
            bit: 8,
            name: "PRIORITY_SPEAKER",
            label: "Priority Speaker",
            description: "Allows for using priority speaker in a voice channel",
        },
        Permission {
            bit: 9,
            name: "STREAM",
            label: "Stream",
            description: "Allows the user to use video and stream (go live) in a voice channel",
        },
        Permission {
            bit: 10,
            name: "VIEW_CHANNEL",
            label: "View Channel",
            description: "Allows guild members to view a channel, which includes reading messages in text channels and joining voice channels",
        },
        Permission {
            bit: 11,
            name: "SEND_MESSAGES",
            label: "Send Messages",
            description: "Allows for sending messages in a channel and creating threads in a forum (does not allow sending messages in threads)",
        },
        Permission {
            bit: 12,
            name: "SEND_TTS_MESSAGES",
            label: "Send Tts Messages",
            description: "Allows for sending of `/tts` messages",
        },
        Permission {
            bit: 13,
            name: "MANAGE_MESSAGES",
            label: "Manage Messages",
            description: "Allows for deletion of other users messages",
        },
        Permission {
            bit: 14,
            name: "EMBED_LINKS",
            label: "Embed Links",
            description: "Links sent by users with this permission will be auto-embedded",
        },
        Permission {
            bit: 15,
            name: "ATTACH_FILES",
            label: "Attach Files",
            description: "Allows for uploading images and files",
        },
        Permission {
            bit: 16,
            name: "READ_MESSAGE_HISTORY",
            label: "Read Message History",
            description: "Allows for reading of message history",
        },
        Permission {
            bit: 17,
            name: "MENTION_EVERYONE",
            label: "Mention Everyone",
            description: "Allows for using the @everyone tag to notify all users in a channel, and the @here tag to notify all online users in a channel",
        },
        Permission {
            bit: 18,
            name: "USE_EXTERNAL_EMOJIS",
            label: "Use External Emojis",
            description: "Allows the usage of custom emoji from other servers",
        },
        Permission {
            bit: 19,
            name: "VIEW_GUILD_INSIGHTS",
            label: "View Guild Insights",
            description: "Allows for viewing guild insights",
        },
        Permission {
            bit: 20,
            name: "CONNECT",
            label: "Connect",
            description: "Allows for joining of a voice channel",
        },
        Permission {
            bit: 21,
            name: "SPEAK",
            label: "Speak",
            description: "Allows for speaking in a voice channel",
        },
        Permission {
            bit: 22,
            name: "MUTE_MEMBERS",
            label: "Mute Members",
            description: "Allows for muting members in a voice channel",
        },
        Permission {
            bit: 23,
            name: "DEAFEN_MEMBERS",
            label: "Deafen Members",
            description: "Allows for deafening of members in a voice channel",
        },
        Permission {
            bit: 24,
            name: "MOVE_MEMBERS",
            label: "Move Members",
            description: "Allows for moving of members between voice channels",
        },
        Permission {
            bit: 25,
            name: "USE_VAD",
            label: "Use Vad",
            description: "Allows for using voice-activity-detection in a voice channel",
        },
        Permission {
            bit: 26,
            name: "CHANGE_NICKNAME",
            label: "Change Nickname",
            description: "Allows for modification of own nickname",
        },
        Permission {
            bit: 27,
            name: "MANAGE_NICKNAMES",
            label: "Manage Nicknames",
            description: "Allows for modification of other users nicknames",
        },
        Permission {
            bit: 28,
            name: "MANAGE_ROLES",
            label: "Manage Roles",
            description: "Allows management and editing of roles",
        },
        Permission {
            bit: 29,
            name: "MANAGE_WEBHOOKS",
            label: "Manage Webhooks",
            description: "Allows management and editing of webhooks",
        },
        Permission {
            bit: 30,
            name: "MANAGE_EXPRESSIONS",
            label: "Manage Expressions",
            description: "Allows editing and deleting emoji, stickers, and soundboard sounds",
        },
        Permission {
            bit: 31,
            name: "USE_APPLICATION_COMMANDS",
            label: "Use Application Commands",
            description: "Allows members to use application commands, including slash commands and context menu commands",
        },
        Permission {
            bit: 32,
            name: "REQUEST_TO_SPEAK",
            label: "Request to Speak",
            description: "Allows for requesting to speak in stage channels",
        },
        Permission {
            bit: 33,
            name: "MANAGE_EVENTS",
            label: "Manage Events",
            description: "Allows for editing and deleting scheduled events",
        },
        Permission {
            bit: 34,
            name: "MANAGE_THREADS",
            label: "Manage Threads",
            description: "Allows for deleting and archiving threads, and viewing all private threads",
        },
        Permission {
            bit: 35,
            name: "CREATE_PUBLIC_THREADS",
            label: "Create Public Threads",
            description: "Allows for creating public and announcement threads",
        },
        Permission {
            bit: 36,
            name: "CREATE_PRIVATE_THREADS",
            label: "Create Private Threads",
            description: "Allows for creating private threads",
        },
        Permission {
            bit: 37,
            name: "USE_EXTERNAL_STICKERS",
            label: "Use External Stickers",
            description: "Allows the usage of custom stickers from other servers",
        },
        Permission {
            bit: 38,
            name: "SEND_MESSAGES_IN_THREADS",
            label: "Send Messages in Threads",
            description: "Allows for sending messages in threads",
        },
        Permission {
            bit: 39,
            name: "USE_EMBEDDED_ACTIVITIES",
            label: "Use Embedded Activities",
            description: "Allows for using Activities (applications with the `EMBEDDED` flag) in a voice channel",
        },
        Permission {
            bit: 40,
            name: "MODERATE_MEMBERS",
            label: "Moderate Members",
            description: "Allows for timing out users to prevent them from sending or reacting to messages in chat and threads, and from speaking in voice and stage channels",
        },
        Permission {
            bit: 41,
            name: "VIEW_CREATOR_MONETIZATION_ANALYTICS",
            label: "View Creator Monetization Analytics",
            description: "Allows for viewing guild role subscriptions insights",
        },
        Permission {
            bit: 42,
            name: "USE_SOUNDBOARD",
            label: "Use Soundboard",
            description: "Allows the usage of the soundboard in a voice channel",
        },
        Permission {
            bit: 43,
            name: "CREATE_EXPRESSIONS",
            label: "Create Expressions",
            description: "Allows for creating emoji, stickers, and soundboard sounds, and editing/deleting ones created by the current user",
        },
        Permission {
            bit: 44,
            name: "CREATE_EVENTS",
            label: "Create Events",
            description: "Allows for creating scheduled events, and editing/deleting ones created by the current user",
        },
        Permission {
            bit: 45,
            name: "USE_EXTERNAL_SOUNDS",
            label: "Use External Sounds",
            description: "Allows the usage of custom soundboard sounds from other servers",
        },
        Permission {
            bit: 46,
            name: "SEND_VOICE_MESSAGES",
            label: "Send Voice Messages",
            description: "Allows for sending voice messages in a channel",
        },
        Permission {
            bit: 48,
            name: "SET_VOICE_CHANNEL_STATUS",
            label: "Set Voice Channel Status",
            description: "Allows setting voice channel status",
        },
        Permission {
            bit: 49,
            name: "SEND_POLLS",
            label: "Send Polls",
            description: "Allows sending polls",
        },
        Permission {
            bit: 50,
            name: "USE_EXTERNAL_APPS",
            label: "Use External Apps",
            description: "Allows the usage of user-installed applications without forced-ephemeral responses",
        },
        Permission {
            bit: 51,
            name: "PIN_MESSAGES",
            label: "Pin Messages",
            description: "Allows pinning messages in a channel",
        },
        Permission {
            bit: 52,
            name: "BYPASS_SLOWMODE",
            label: "Bypass Slowmode",
            description: "Allows members to bypass slowmode in a channel",
        },
        Permission {
            bit: 53,
            name: "MANAGE_OFFICIAL_MESSAGES",
            label: "Manage Official Messages",
            description: "Allows members to mark messages as official in verified guilds",
        },
    ]
}

/// Every permission, in Discord's own order.
pub fn all() -> (v: Vec<Permission>)
    ensures
        v@ == catalogue(),
{
    vec![
        Permission {
            bit: 0,
            name: "CREATE_INSTANT_INVITE",
            label: "Create Instant Invite",
            description: "Allows creation of instant invites",
        },
        Permission {
            bit: 1,
            name: "KICK_MEMBERS",
            label: "Kick Members",
            description: "Allows kicking members",
        },
        Permission {
            bit: 2,
            name: "BAN_MEMBERS",
            label: "Ban Members",
            description: "Allows banning members",
        },
        Permission {
            bit: 3,
            name: "ADMINISTRATOR",
            label: "Administrator",
            description: "Allows all permissions and bypasses channel permission overwrites",
        },
        Permission {
            bit: 4,
            name: "MANAGE_CHANNELS",
            label: "Manage Channels",
            description: "Allows management and editing of channels",
        },
        Permission {
            bit: 5,
            name: "MANAGE_GUILD",
            label: "Manage Guild",
            description: "Allows management and editing of the guild",
        },
        Permission {
            bit: 6,
            name: "ADD_REACTIONS",
            label: "Add Reactions",
            description: "Allows for the addition of reactions to messages",
        },
        Permission {
            bit: 7,
            name: "VIEW_AUDIT_LOG",
            label: "View Audit Log",
            description: "Allows for viewing of audit logs",
        },
        Permission {
            bit: 8,
            name: "PRIORITY_SPEAKER",
            label: "Priority Speaker",
            description: "Allows for using priority speaker in a voice channel",
        },
        Permission {
            bit: 9,
            name: "STREAM",
            label: "Stream",
            description: "Allows the user to use video and stream (go live) in a voice channel",
        },
        Permission {
            bit: 10,
            name: "VIEW_CHANNEL",
            label: "View Channel",
            description: "Allows guild members to view a channel, which includes reading messages in text channels and joining voice channels",
        },
        Permission {
            bit: 11,
            name: "SEND_MESSAGES",
            label: "Send Messages",
            description: "Allows for sending messages in a channel and creating threads in a forum (does not allow sending messages in threads)",
        },
        Permission {
            bit: 12,
            name: "SEND_TTS_MESSAGES",
            label: "Send Tts Messages",
            description: "Allows for sending of `/tts` messages",
        },
        Permission {
            bit: 13,
            name: "MANAGE_MESSAGES",
            label: "Manage Messages",
            description: "Allows for deletion of other users messages",
        },
        Permission {
            bit: 14,
            name: "EMBED_LINKS",
            label: "Embed Links",
            description: "Links sent by users with this permission will be auto-embedded",
        },
        Permission {
            bit: 15,
            name: "ATTACH_FILES",
            label: "Attach Files",
            description: "Allows for uploading images and files",
        },
        Permission {
            bit: 16,
            name: "READ_MESSAGE_HISTORY",
            label: "Read Message History",
            description: "Allows for reading of message history",
        },
        Permission {
            bit: 17,
            name: "MENTION_EVERYONE",
            label: "Mention Everyone",
            description: "Allows for using the @everyone tag to notify all users in a channel, and the @here tag to notify all online users in a channel",
        },
        Permission {
            bit: 18,
            name: "USE_EXTERNAL_EMOJIS",
            label: "Use External Emojis",
            description: "Allows the usage of custom emoji from other servers",
        },
        Permission {
            bit: 19,
            name: "VIEW_GUILD_INSIGHTS",
            label: "View Guild Insights",
            description: "Allows for viewing guild insights",
        },
        Permission {
            bit: 20,
            name: "CONNECT",
            label: "Connect",
            description: "Allows for joining of a voice channel",
        },
        Permission {
            bit: 21,
            name: "SPEAK",
            label: "Speak",
            description: "Allows for speaking in a voice channel",
        },
        Permission {
            bit: 22,
            name: "MUTE_MEMBERS",
            label: "Mute Members",
            description: "Allows for muting members in a voice channel",
        },
        Permission {
            bit: 23,
            name: "DEAFEN_MEMBERS",
            label: "Deafen Members",
            description: "Allows for deafening of members in a voice channel",
        },
        Permission {
            bit: 24,
            name: "MOVE_MEMBERS",
            label: "Move Members",
            description: "Allows for moving of members between voice channels",
        },
        Permission {
            bit: 25,
            name: "USE_VAD",
            label: "Use Vad",
            description: "Allows for using voice-activity-detection in a voice channel",
        },
        Permission {
            bit: 26,
            name: "CHANGE_NICKNAME",
            label: "Change Nickname",
            description: "Allows for modification of own nickname",
        },
        Permission {
            bit: 27,
            name: "MANAGE_NICKNAMES",
            label: "Manage Nicknames",
            description: "Allows for modification of other users nicknames",
        },
        Permission {
            bit: 28,
            name: "MANAGE_ROLES",
            label: "Manage Roles",
            description: "Allows management and editing of roles",
        },
        Permission {
            bit: 29,
            name: "MANAGE_WEBHOOKS",
            label: "Manage Webhooks",
            description: "Allows management and editing of webhooks",
        },
        Permission {
            bit: 30,
            name: "MANAGE_EXPRESSIONS",
            label: "Manage Expressions",
            description: "Allows editing and deleting emoji, stickers, and soundboard sounds",
        },
        Permission {
            bit: 31,
            name: "USE_APPLICATION_COMMANDS",
            label: "Use Application Commands",
            description: "Allows members to use application commands, including slash commands and context menu commands",
        },
        Permission {
            bit: 32,
            name: "REQUEST_TO_SPEAK",
            label: "Request to Speak",
            description: "Allows for requesting to speak in stage channels",
        },
        Permission {
            bit: 33,
            name: "MANAGE_EVENTS",
            label: "Manage Events",
            description: "Allows for editing and deleting scheduled events",
        },
        Permission {
            bit: 34,
            name: "MANAGE_THREADS",
            label: "Manage Threads",
            description: "Allows for deleting and archiving threads, and viewing all private threads",
        },
        Permission {
            bit: 35,
            name: "CREATE_PUBLIC_THREADS",
            label: "Create Public Threads",
            description: "Allows for creating public and announcement threads",
        },
        Permission {
            bit: 36,
            name: "CREATE_PRIVATE_THREADS",
            label: "Create Private Threads",
            description: "Allows for creating private threads",
        },
        Permission {
            bit: 37,
            name: "USE_EXTERNAL_STICKERS",
            label: "Use External Stickers",
            description: "Allows the usage of custom stickers from other servers",
        },
        Permission {
            bit: 38,
            name: "SEND_MESSAGES_IN_THREADS",
            label: "Send Messages in Threads",
            description: "Allows for sending messages in threads",
        },
        Permission {
            bit: 39,
            name: "USE_EMBEDDED_ACTIVITIES",
            label: "Use Embedded Activities",
            description: "Allows for using Activities (applications with the `EMBEDDED` flag) in a voice channel",
        },
        Permission {
            bit: 40,
            name: "MODERATE_MEMBERS",
            label: "Moderate Members",
            description: "Allows for timing out users to prevent them from sending or reacting to messages in chat and threads, and from speaking in voice and stage channels",
        },
        Permission {
            bit: 41,
            name: "VIEW_CREATOR_MONETIZATION_ANALYTICS",
            label: "View Creator Monetization Analytics",
            description: "Allows for viewing guild role subscriptions insights",
        },
        Permission {
            bit: 42,
            name: "USE_SOUNDBOARD",
            label: "Use Soundboard",
            description: "Allows the usage of the soundboard in a voice channel",
        },
        Permission {
            bit: 43,
            name: "CREATE_EXPRESSIONS",
            label: "Create Expressions",
            description: "Allows for creating emoji, stickers, and soundboard sounds, and editing/deleting ones created by the current user",
        },
        Permission {
            bit: 44,
            name: "CREATE_EVENTS",
            label: "Create Events",
            description: "Allows for creating scheduled events, and editing/deleting ones created by the current user",
        },
        Permission {
            bit: 45,
            name: "USE_EXTERNAL_SOUNDS",
            label: "Use External Sounds",
            description: "Allows the usage of custom soundboard sounds from other servers",
        },
        Permission {
            bit: 46,
            name: "SEND_VOICE_MESSAGES",
            label: "Send Voice Messages",
            description: "Allows for sending voice messages in a channel",
        },
        Permission {
            bit: 48,
            name: "SET_VOICE_CHANNEL_STATUS",
            label: "Set Voice Channel Status",
            description: "Allows setting voice channel status",
        },
        Permission {
            bit: 49,
            name: "SEND_POLLS",
            label: "Send Polls",
            description: "Allows sending polls",
        },
        Permission {
            bit: 50,
            name: "USE_EXTERNAL_APPS",
            label: "Use External Apps",
            description: "Allows the usage of user-installed applications without forced-ephemeral responses",
        },
        Permission {
            bit: 51,
            name: "PIN_MESSAGES",
            label: "Pin Messages",
            description: "Allows pinning messages in a channel",
        },
        Permission {
            bit: 52,
            name: "BYPASS_SLOWMODE",
            label: "Bypass Slowmode",
            description: "Allows members to bypass slowmode in a channel",
        },
        Permission {
            bit: 53,
            name: "MANAGE_OFFICIAL_MESSAGES",
            label: "Manage Official Messages",
            description: "Allows members to mark messages as official in verified guilds",
        },
    ]
}

/// The first permission in the catalogue from `i` on with the given name.
pub open spec fn first_named_from(name: Seq<char>, i: int) -> Option<Permission>
    decreases catalogue().len() - i,
{
    if i < 0 || i >= catalogue().len() {
        None
    } else if catalogue()[i].name@ == name {
        Some(catalogue()[i])
    } else {
        first_named_from(name, i + 1)
    }
}

/// Find a permission by Discord's name, as the audit log spells it.
pub fn by_name(name: &str) -> (p: Option<Permission>)
    ensures
        p == first_named_from(name@, 0),
{
    let entries = all();
    let n = entries.len();
    let mut i: usize = 0;
    while i < n
        invariant
            entries@ == catalogue(),
            n == catalogue().len(),
            i <= n,
            first_named_from(name@, 0) == first_named_from(name@, i as int),
        decreases n - i,
    {
        if same_text(entries[i].name, name) {
            return Some(entries[i]);
        }
        i = i + 1;
    }
    None
}

/// The bitfield with one permission set or cleared.
pub open spec fn with_spec(permissions: u64, bit: u8, allowed: bool) -> u64 {
    if allowed {
        permissions | mask_of(bit)
    } else {
        permissions & !mask_of(bit)
    }
}

/// Set or clear a permission in a bitfield.
pub fn with(permissions: u64, permission: Permission, allowed: bool) -> (r: u64)
    requires
        permission.bit < 64,
    ensures
        r == with_spec(permissions, permission.bit, allowed),
{
    if allowed {
        permissions | permission.mask()
    } else {
        permissions & !permission.mask()
    }
}

/// Law: the catalogue's bits run from 0 to 53 with 47 left out, so no two
/// permissions share a bit and every mask fits a `u64`.
pub proof fn law_catalogue_bits_are_distinct()
    ensures
        catalogue().len() == CATALOGUE_LEN,
        forall|i: int| 0 <= i < CATALOGUE_LEN ==> #[trigger] catalogue()[i].bit == if i < 47 { i } else { i + 1 },
        forall|i: int, j: int| 0 <= i < j < CATALOGUE_LEN ==> #[trigger] catalogue()[i].bit != #[trigger] catalogue()[j].bit,
        forall|i: int| 0 <= i < CATALOGUE_LEN ==> #[trigger] catalogue()[i].bit < 64,
{
    assert forall|i: int| 0 <= i < CATALOGUE_LEN implies #[trigger] catalogue()[i].bit == if i < 47 { i } else { i + 1 } by {
    }
}

/// A permission's own name finds it.
pub open spec fn finds_itself(i: int) -> bool {
    first_named_from(catalogue()[i].name@, 0) == Some(catalogue()[i])
}

/// The permissions 0 to 8 are found by their own names: each earlier
/// name differs in length or, at equal length, in a character.
proof fn lemma_finds_itself_0_to_8()
    ensures
        forall|i: int| 0 <= i <= 8 ==> #[trigger] finds_itself(i),
{
    reveal_with_fuel(first_named_from, 10);
    reveal_strlit("CREATE_INSTANT_INVITE");
    reveal_strlit("KICK_MEMBERS");
    reveal_strlit("BAN_MEMBERS");
    reveal_strlit("ADMINISTRATOR");
    reveal_strlit("MANAGE_CHANNELS");
    reveal_strlit("MANAGE_GUILD");
    reveal_strlit("ADD_REACTIONS");
    reveal_strlit("VIEW_AUDIT_LOG");
    reveal_strlit("PRIORITY_SPEAKER");
    assert(catalogue()[0].name@.len() == 21);
    assert(catalogue()[1].name@.len() == 12);
    assert(catalogue()[2].name@.len() == 11);
    assert(catalogue()[3].name@.len() == 13);
    assert(catalogue()[4].name@.len() == 15);
    assert(catalogue()[5].name@.len() == 12);
    assert(catalogue()[6].name@.len() == 13);
    assert(catalogue()[7].name@.len() == 14);
    assert(catalogue()[8].name@.len() == 16);
    assert(catalogue()[1].name@[0] == 'K' && catalogue()[5].name@[0] == 'M');
    assert(catalogue()[1].name@ != catalogue()[5].name@);
    assert(catalogue()[3].name@[2] == 'M' && catalogue()[6].name@[2] == 'D');
    assert(catalogue()[3].name@ != catalogue()[6].name@);
    assert(finds_itself(0));
    assert(finds_itself(1));
    assert(finds_itself(2));
    assert(finds_itself(3));
    assert(finds_itself(4));
    assert(finds_itself(5));
    assert(finds_itself(6));
    assert(finds_itself(7));
    assert(finds_itself(8));
    assert forall|i: int| 0 <= i <= 8 implies #[trigger] finds_itself(i) by {
        if i == 0 {} else if i == 1 {} else if i == 2 {} else if i == 3 {} else if i == 4 {} else if i == 5 {} else if i == 6 {} else if i == 7 {} else if i == 8 {}
    }
}

/// The permissions 9 to 17 are found by their own names: each earlier
/// name differs in length or, at equal length, in a character.
proof fn lemma_finds_itself_9_to_17()
    ensures
        forall|i: int| 9 <= i <= 17 ==> #[trigger] finds_itself(i),
{
    reveal_with_fuel(first_named_from, 19);
    reveal_strlit("CREATE_INSTANT_INVITE");
    reveal_strlit("KICK_MEMBERS");
    reveal_strlit("BAN_MEMBERS");
    reveal_strlit("ADMINISTRATOR");
    reveal_strlit("MANAGE_CHANNELS");
    reveal_strlit("MANAGE_GUILD");
    reveal_strlit("ADD_REACTIONS");
    reveal_strlit("VIEW_AUDIT_LOG");
    reveal_strlit("PRIORITY_SPEAKER");
    reveal_strlit("STREAM");
    reveal_strlit("VIEW_CHANNEL");
    reveal_strlit("SEND_MESSAGES");
    reveal_strlit("SEND_TTS_MESSAGES");
    reveal_strlit("MANAGE_MESSAGES");
    reveal_strlit("EMBED_LINKS");
    reveal_strlit("ATTACH_FILES");
    reveal_strlit("READ_MESSAGE_HISTORY");
    reveal_strlit("MENTION_EVERYONE");
    assert(catalogue()[0].name@.len() == 21);
    assert(catalogue()[1].name@.len() == 12);
    assert(catalogue()[2].name@.len() == 11);
    assert(catalogue()[3].name@.len() == 13);
    assert(catalogue()[4].name@.len() == 15);
    assert(catalogue()[5].name@.len() == 12);
    assert(catalogue()[6].name@.len() == 13);
    assert(catalogue()[7].name@.len() == 14);
    assert(catalogue()[8].name@.len() == 16);
    assert(catalogue()[9].name@.len() == 6);
    assert(catalogue()[10].name@.len() == 12);
    assert(catalogue()[11].name@.len() == 13);
    assert(catalogue()[12].name@.len() == 17);
    assert(catalogue()[13].name@.len() == 15);
    assert(catalogue()[14].name@.len() == 11);
    assert(catalogue()[15].name@.len() == 12);
    assert(catalogue()[16].name@.len() == 20);
    assert(catalogue()[17].name@.len() == 16);
    assert(catalogue()[1].name@[0] == 'K' && catalogue()[10].name@[0] == 'V');
    assert(catalogue()[1].name@ != catalogue()[10].name@);
    assert(catalogue()[5].name@[0] == 'M' && catalogue()[10].name@[0] == 'V');
    assert(catalogue()[5].name@ != catalogue()[10].name@);
    assert(catalogue()[3].name@[0] == 'A' && catalogue()[11].name@[0] == 'S');
    assert(catalogue()[3].name@ != catalogue()[11].name@);
    assert(catalogue()[6].name@[0] == 'A' && catalogue()[11].name@[0] == 'S');
    assert(catalogue()[6].name@ != catalogue()[11].name@);
    assert(catalogue()[4].name@[7] == 'C' && catalogue()[13].name@[7] == 'M');
    assert(catalogue()[4].name@ != catalogue()[13].name@);
    assert(catalogue()[2].name@[0] == 'B' && catalogue()[14].name@[0] == 'E');
    assert(catalogue()[2].name@ != catalogue()[14].name@);
    assert(catalogue()[1].name@[0] == 'K' && catalogue()[15].name@[0] == 'A');
    assert(catalogue()[1].name@ != catalogue()[15].name@);
    assert(catalogue()[5].name@[0] == 'M' && catalogue()[15].name@[0] == 'A');
    assert(catalogue()[5].name@ != catalogue()[15].name@);
    assert(catalogue()[10].name@[0] == 'V' && catalogue()[15].name@[0] == 'A');
    assert(catalogue()[10].name@ != catalogue()[15].name@);
    assert(catalogue()[8].name@[0] == 'P' && catalogue()[17].name@[0] == 'M');
    assert(catalogue()[8].name@ != catalogue()[17].name@);
    assert(finds_itself(9));
    assert(finds_itself(10));
    assert(finds_itself(11));
    assert(finds_itself(12));
    assert(finds_itself(13));
    assert(finds_itself(14));
    assert(finds_itself(15));
    assert(finds_itself(16));
    assert(finds_itself(17));
    assert forall|i: int| 9 <= i <= 17 implies #[trigger] finds_itself(i) by {
        if i == 9 {} else if i == 10 {} else if i == 11 {} else if i == 12 {} else if i == 13 {} else if i == 14 {} else if i == 15 {} else if i == 16 {} else if i == 17 {}
    }
}

/// The permissions 18 to 26 are found by their own names: each earlier
/// name differs in length or, at equal length, in a character.
proof fn lemma_finds_itself_18_to_26()
    ensures
        forall|i: int| 18 <= i <= 26 ==> #[trigger] finds_itself(i),
{
    reveal_with_fuel(first_named_from, 28);
    reveal_strlit("CREATE_INSTANT_INVITE");
    reveal_strlit("KICK_MEMBERS");
    reveal_strlit("BAN_MEMBERS");
    reveal_strlit("ADMINISTRATOR");
    reveal_strlit("MANAGE_CHANNELS");
    reveal_strlit("MANAGE_GUILD");
    reveal_strlit("ADD_REACTIONS");
    reveal_strlit("VIEW_AUDIT_LOG");
    reveal_strlit("PRIORITY_SPEAKER");
    reveal_strlit("STREAM");
    reveal_strlit("VIEW_CHANNEL");
    reveal_strlit("SEND_MESSAGES");
    reveal_strlit("SEND_TTS_MESSAGES");
    reveal_strlit("MANAGE_MESSAGES");
    reveal_strlit("EMBED_LINKS");
    reveal_strlit("ATTACH_FILES");
    reveal_strlit("READ_MESSAGE_HISTORY");
    reveal_strlit("MENTION_EVERYONE");
    reveal_strlit("USE_EXTERNAL_EMOJIS");
    reveal_strlit("VIEW_GUILD_INSIGHTS");
    reveal_strlit("CONNECT");
    reveal_strlit("SPEAK");
    reveal_strlit("MUTE_MEMBERS");
    reveal_strlit("DEAFEN_MEMBERS");
    reveal_strlit("MOVE_MEMBERS");
    reveal_strlit("USE_VAD");
    reveal_strlit("CHANGE_NICKNAME");
    assert(catalogue()[0].name@.len() == 21);
    assert(catalogue()[1].name@.len() == 12);
    assert(catalogue()[2].name@.len() == 11);
    assert(catalogue()[3].name@.len() == 13);
    assert(catalogue()[4].name@.len() == 15);
    assert(catalogue()[5].name@.len() == 12);
    assert(catalogue()[6].name@.len() == 13);
    assert(catalogue()[7].name@.len() == 14);
    assert(catalogue()[8].name@.len() == 16);
    assert(catalogue()[9].name@.len() == 6);
    assert(catalogue()[10].name@.len() == 12);
    assert(catalogue()[11].name@.len() == 13);
    assert(catalogue()[12].name@.len() == 17);
    assert(catalogue()[13].name@.len() == 15);
    assert(catalogue()[14].name@.len() == 11);
    assert(catalogue()[15].name@.len() == 12);
    assert(catalogue()[16].name@.len() == 20);
    assert(catalogue()[17].name@.len() == 16);
    assert(catalogue()[18].name@.len() == 19);
    assert(catalogue()[19].name@.len() == 19);
    assert(catalogue()[20].name@.len() == 7);
    assert(catalogue()[21].name@.len() == 5);
    assert(catalogue()[22].name@.len() == 12);
    assert(catalogue()[23].name@.len() == 14);
    assert(catalogue()[24].name@.len() == 12);
    assert(catalogue()[25].name@.len() == 7);
    assert(catalogue()[26].name@.len() == 15);
    assert(catalogue()[18].name@[0] == 'U' && catalogue()[19].name@[0] == 'V');
    assert(catalogue()[18].name@ != catalogue()[19].name@);
    assert(catalogue()[1].name@[0] == 'K' && catalogue()[22].name@[0] == 'M');
    assert(catalogue()[1].name@ != catalogue()[22].name@);
    assert(catalogue()[5].name@[1] == 'A' && catalogue()[22].name@[1] == 'U');
    assert(catalogue()[5].name@ != catalogue()[22].name@);
    assert(catalogue()[10].name@[0] == 'V' && catalogue()[22].name@[0] == 'M');
    assert(catalogue()[10].name@ != catalogue()[22].name@);
    assert(catalogue()[15].name@[0] == 'A' && catalogue()[22].name@[0] == 'M');
    assert(catalogue()[15].name@ != catalogue()[22].name@);
    assert(catalogue()[7].name@[0] == 'V' && catalogue()[23].name@[0] == 'D');
    assert(catalogue()[7].name@ != catalogue()[23].name@);
    assert(catalogue()[1].name@[0] == 'K' && catalogue()[24].name@[0] == 'M');
    assert(catalogue()[1].name@ != catalogue()[24].name@);
    assert(catalogue()[5].name@[1] == 'A' && catalogue()[24].name@[1] == 'O');
    assert(catalogue()[5].name@ != catalogue()[24].name@);
    assert(catalogue()[10].name@[0] == 'V' && catalogue()[24].name@[0] == 'M');
    assert(catalogue()[10].name@ != catalogue()[24].name@);
    assert(catalogue()[15].name@[0] == 'A' && catalogue()[24].name@[0] == 'M');
    assert(catalogue()[15].name@ != catalogue()[24].name@);
    assert(catalogue()[22].name@[1] == 'U' && catalogue()[24].name@[1] == 'O');
    assert(catalogue()[22].name@ != catalogue()[24].name@);
    assert(catalogue()[20].name@[0] == 'C' && catalogue()[25].name@[0] == 'U');
    assert(catalogue()[20].name@ != catalogue()[25].name@);
    assert(catalogue()[4].name@[0] == 'M' && catalogue()[26].name@[0] == 'C');
    assert(catalogue()[4].name@ != catalogue()[26].name@);
    assert(catalogue()[13].name@[0] == 'M' && catalogue()[26].name@[0] == 'C');
    assert(catalogue()[13].name@ != catalogue()[26].name@);
    assert(finds_itself(18));
    assert(finds_itself(19));
    assert(finds_itself(20));
    assert(finds_itself(21));
    assert(finds_itself(22));
    assert(finds_itself(23));
    assert(finds_itself(24));
    assert(finds_itself(25));
    assert(finds_itself(26));
    assert forall|i: int| 18 <= i <= 26 implies #[trigger] finds_itself(i) by {
        if i == 18 {} else if i == 19 {} else if i == 20 {} else if i == 21 {} else if i == 22 {} else if i == 23 {} else if i == 24 {} else if i == 25 {} else if i == 26 {}
    }
}

/// The permissions 27 to 35 are found by their own names: each earlier
/// name differs in length or, at equal length, in a character.
proof fn lemma_finds_itself_27_to_35()
    ensures
        forall|i: int| 27 <= i <= 35 ==> #[trigger] finds_itself(i),
{
    reveal_with_fuel(first_named_from, 37);
    reveal_strlit("CREATE_INSTANT_INVITE");
    reveal_strlit("KICK_MEMBERS");
    reveal_strlit("BAN_MEMBERS");
    reveal_strlit("ADMINISTRATOR");
    reveal_strlit("MANAGE_CHANNELS");
    reveal_strlit("MANAGE_GUILD");
    reveal_strlit("ADD_REACTIONS");
    reveal_strlit("VIEW_AUDIT_LOG");
    reveal_strlit("PRIORITY_SPEAKER");
    reveal_strlit("STREAM");
    reveal_strlit("VIEW_CHANNEL");
    reveal_strlit("SEND_MESSAGES");
    reveal_strlit("SEND_TTS_MESSAGES");
    reveal_strlit("MANAGE_MESSAGES");
    reveal_strlit("EMBED_LINKS");
    reveal_strlit("ATTACH_FILES");
    reveal_strlit("READ_MESSAGE_HISTORY");
    reveal_strlit("MENTION_EVERYONE");
    reveal_strlit("USE_EXTERNAL_EMOJIS");
    reveal_strlit("VIEW_GUILD_INSIGHTS");
    reveal_strlit("CONNECT");
    reveal_strlit("SPEAK");
    reveal_strlit("MUTE_MEMBERS");
    reveal_strlit("DEAFEN_MEMBERS");
    reveal_strlit("MOVE_MEMBERS");
    reveal_strlit("USE_VAD");
    reveal_strlit("CHANGE_NICKNAME");
    reveal_strlit("MANAGE_NICKNAMES");
    reveal_strlit("MANAGE_ROLES");
    reveal_strlit("MANAGE_WEBHOOKS");
    reveal_strlit("MANAGE_EXPRESSIONS");
    reveal_strlit("USE_APPLICATION_COMMANDS");
    reveal_strlit("REQUEST_TO_SPEAK");
    reveal_strlit("MANAGE_EVENTS");
    reveal_strlit("MANAGE_THREADS");
    reveal_strlit("CREATE_PUBLIC_THREADS");
    assert(catalogue()[0].name@.len() == 21);
    assert(catalogue()[1].name@.len() == 12);
    assert(catalogue()[2].name@.len() == 11);
    assert(catalogue()[3].name@.len() == 13);
    assert(catalogue()[4].name@.len() == 15);
    assert(catalogue()[5].name@.len() == 12);
    assert(catalogue()[6].name@.len() == 13);
    assert(catalogue()[7].name@.len() == 14);
    assert(catalogue()[8].name@.len() == 16);
    assert(catalogue()[9].name@.len() == 6);
    assert(catalogue()[10].name@.len() == 12);
    assert(catalogue()[11].name@.len() == 13);
    assert(catalogue()[12].name@.len() == 17);
    assert(catalogue()[13].name@.len() == 15);
    assert(catalogue()[14].name@.len() == 11);
    assert(catalogue()[15].name@.len() == 12);
    assert(catalogue()[16].name@.len() == 20);
    assert(catalogue()[17].name@.len() == 16);
    assert(catalogue()[18].name@.len() == 19);
    assert(catalogue()[19].name@.len() == 19);
    assert(catalogue()[20].name@.len() == 7);
    assert(catalogue()[21].name@.len() == 5);
    assert(catalogue()[22].name@.len() == 12);
    assert(catalogue()[23].name@.len() == 14);
    assert(catalogue()[24].name@.len() == 12);
    assert(catalogue()[25].name@.len() == 7);
    assert(catalogue()[26].name@.len() == 15);
    assert(catalogue()[27].name@.len() == 16);
    assert(catalogue()[28].name@.len() == 12);
    assert(catalogue()[29].name@.len() == 15);
    assert(catalogue()[30].name@.len() == 18);
    assert(catalogue()[31].name@.len() == 24);
    assert(catalogue()[32].name@.len() == 16);
    assert(catalogue()[33].name@.len() == 13);
    assert(catalogue()[34].name@.len() == 14);
    assert(catalogue()[35].name@.len() == 21);
    assert(catalogue()[8].name@[0] == 'P' && catalogue()[27].name@[0] == 'M');
    assert(catalogue()[8].name@ != catalogue()[27].name@);
    assert(catalogue()[17].name@[1] == 'E' && catalogue()[27].name@[1] == 'A');
    assert(catalogue()[17].name@ != catalogue()[27].name@);
    assert(catalogue()[1].name@[0] == 'K' && catalogue()[28].name@[0] == 'M');
    assert(catalogue()[1].name@ != catalogue()[28].name@);
    assert(catalogue()[5].name@[7] == 'G' && catalogue()[28].name@[7] == 'R');
    assert(catalogue()[5].name@ != catalogue()[28].name@);
    assert(catalogue()[10].name@[0] == 'V' && catalogue()[28].name@[0] == 'M');
    assert(catalogue()[10].name@ != catalogue()[28].name@);
    assert(catalogue()[15].name@[0] == 'A' && catalogue()[28].name@[0] == 'M');
    assert(catalogue()[15].name@ != catalogue()[28].name@);
    assert(catalogue()[22].name@[1] == 'U' && catalogue()[28].name@[1] == 'A');
    assert(catalogue()[22].name@ != catalogue()[28].name@);
    assert(catalogue()[24].name@[1] == 'O' && catalogue()[28].name@[1] == 'A');
    assert(catalogue()[24].name@ != catalogue()[28].name@);
    assert(catalogue()[4].name@[7] == 'C' && catalogue()[29].name@[7] == 'W');
    assert(catalogue()[4].name@ != catalogue()[29].name@);
    assert(catalogue()[13].name@[7] == 'M' && catalogue()[29].name@[7] == 'W');
    assert(catalogue()[13].name@ != catalogue()[29].name@);
    assert(catalogue()[26].name@[0] == 'C' && catalogue()[29].name@[0] == 'M');
    assert(catalogue()[26].name@ != catalogue()[29].name@);
    assert(catalogue()[8].name@[0] == 'P' && catalogue()[32].name@[0] == 'R');
    assert(catalogue()[8].name@ != catalogue()[32].name@);
    assert(catalogue()[17].name@[0] == 'M' && catalogue()[32].name@[0] == 'R');
    assert(catalogue()[17].name@ != catalogue()[32].name@);
    assert(catalogue()[27].name@[0] == 'M' && catalogue()[32].name@[0] == 'R');
    assert(catalogue()[27].name@ != catalogue()[32].name@);
    assert(catalogue()[3].name@[0] == 'A' && catalogue()[33].name@[0] == 'M');
    assert(catalogue()[3].name@ != catalogue()[33].name@);
    assert(catalogue()[6].name@[0] == 'A' && catalogue()[33].name@[0] == 'M');
    assert(catalogue()[6].name@ != catalogue()[33].name@);
    assert(catalogue()[11].name@[0] == 'S' && catalogue()[33].name@[0] == 'M');
    assert(catalogue()[11].name@ != catalogue()[33].name@);
    assert(catalogue()[7].name@[0] == 'V' && catalogue()[34].name@[0] == 'M');
    assert(catalogue()[7].name@ != catalogue()[34].name@);
    assert(catalogue()[23].name@[0] == 'D' && catalogue()[34].name@[0] == 'M');
    assert(catalogue()[23].name@ != catalogue()[34].name@);
    assert(catalogue()[0].name@[7] == 'I' && catalogue()[35].name@[7] == 'P');
    assert(catalogue()[0].name@ != catalogue()[35].name@);
    assert(finds_itself(27));
    assert(finds_itself(28));
    assert(finds_itself(29));
    assert(finds_itself(30));
    assert(finds_itself(31));
    assert(finds_itself(32));
    assert(finds_itself(33));
    assert(finds_itself(34));
    assert(finds_itself(35));
    assert forall|i: int| 27 <= i <= 35 implies #[trigger] finds_itself(i) by {
        if i == 27 {} else if i == 28 {} else if i == 29 {} else if i == 30 {} else if i == 31 {} else if i == 32 {} else if i == 33 {} else if i == 34 {} else if i == 35 {}
    }
}

/// The permissions 36 to 44 are found by their own names: each earlier
/// name differs in length or, at equal length, in a character.
proof fn lemma_finds_itself_36_to_44()
    ensures
        forall|i: int| 36 <= i <= 44 ==> #[trigger] finds_itself(i),
{
    reveal_with_fuel(first_named_from, 46);
    reveal_strlit("CREATE_INSTANT_INVITE");
    reveal_strlit("KICK_MEMBERS");
    reveal_strlit("BAN_MEMBERS");
    reveal_strlit("ADMINISTRATOR");
    reveal_strlit("MANAGE_CHANNELS");
    reveal_strlit("MANAGE_GUILD");
    reveal_strlit("ADD_REACTIONS");
    reveal_strlit("VIEW_AUDIT_LOG");
    reveal_strlit("PRIORITY_SPEAKER");
    reveal_strlit("STREAM");
    reveal_strlit("VIEW_CHANNEL");
    reveal_strlit("SEND_MESSAGES");
    reveal_strlit("SEND_TTS_MESSAGES");
    reveal_strlit("MANAGE_MESSAGES");
    reveal_strlit("EMBED_LINKS");
    reveal_strlit("ATTACH_FILES");
    reveal_strlit("READ_MESSAGE_HISTORY");
    reveal_strlit("MENTION_EVERYONE");
    reveal_strlit("USE_EXTERNAL_EMOJIS");
    reveal_strlit("VIEW_GUILD_INSIGHTS");
    reveal_strlit("CONNECT");
    reveal_strlit("SPEAK");
    reveal_strlit("MUTE_MEMBERS");
    reveal_strlit("DEAFEN_MEMBERS");
    reveal_strlit("MOVE_MEMBERS");
    reveal_strlit("USE_VAD");
    reveal_strlit("CHANGE_NICKNAME");
    reveal_strlit("MANAGE_NICKNAMES");
    reveal_strlit("MANAGE_ROLES");
    reveal_strlit("MANAGE_WEBHOOKS");
    reveal_strlit("MANAGE_EXPRESSIONS");
    reveal_strlit("USE_APPLICATION_COMMANDS");
    reveal_strlit("REQUEST_TO_SPEAK");
    reveal_strlit("MANAGE_EVENTS");
    reveal_strlit("MANAGE_THREADS");
    reveal_strlit("CREATE_PUBLIC_THREADS");
    reveal_strlit("CREATE_PRIVATE_THREADS");
    reveal_strlit("USE_EXTERNAL_STICKERS");
    reveal_strlit("SEND_MESSAGES_IN_THREADS");
    reveal_strlit("USE_EMBEDDED_ACTIVITIES");
    reveal_strlit("MODERATE_MEMBERS");
    reveal_strlit("VIEW_CREATOR_MONETIZATION_ANALYTICS");
    reveal_strlit("USE_SOUNDBOARD");
    reveal_strlit("CREATE_EXPRESSIONS");
    reveal_strlit("CREATE_EVENTS");
    assert(catalogue()[0].name@.len() == 21);
    assert(catalogue()[1].name@.len() == 12);
    assert(catalogue()[2].name@.len() == 11);
    assert(catalogue()[3].name@.len() == 13);
    assert(catalogue()[4].name@.len() == 15);
    assert(catalogue()[5].name@.len() == 12);
    assert(catalogue()[6].name@.len() == 13);
    assert(catalogue()[7].name@.len() == 14);
    assert(catalogue()[8].name@.len() == 16);
    assert(catalogue()[9].name@.len() == 6);
    assert(catalogue()[10].name@.len() == 12);
    assert(catalogue()[11].name@.len() == 13);
    assert(catalogue()[12].name@.len() == 17);
    assert(catalogue()[13].name@.len() == 15);
    assert(catalogue()[14].name@.len() == 11);
    assert(catalogue()[15].name@.len() == 12);
    assert(catalogue()[16].name@.len() == 20);
    assert(catalogue()[17].name@.len() == 16);
    assert(catalogue()[18].name@.len() == 19);
    assert(catalogue()[19].name@.len() == 19);
    assert(catalogue()[20].name@.len() == 7);
    assert(catalogue()[21].name@.len() == 5);
    assert(catalogue()[22].name@.len() == 12);
    assert(catalogue()[23].name@.len() == 14);
    assert(catalogue()[24].name@.len() == 12);
    assert(catalogue()[25].name@.len() == 7);
    assert(catalogue()[26].name@.len() == 15);
    assert(catalogue()[27].name@.len() == 16);
    assert(catalogue()[28].name@.len() == 12);
    assert(catalogue()[29].name@.len() == 15);
    assert(catalogue()[30].name@.len() == 18);
    assert(catalogue()[31].name@.len() == 24);
    assert(catalogue()[32].name@.len() == 16);
    assert(catalogue()[33].name@.len() == 13);
    assert(catalogue()[34].name@.len() == 14);
    assert(catalogue()[35].name@.len() == 21);
    assert(catalogue()[36].name@.len() == 22);
    assert(catalogue()[37].name@.len() == 21);
    assert(catalogue()[38].name@.len() == 24);
    assert(catalogue()[39].name@.len() == 23);
    assert(catalogue()[40].name@.len() == 16);
    assert(catalogue()[41].name@.len() == 35);
    assert(catalogue()[42].name@.len() == 14);
    assert(catalogue()[43].name@.len() == 18);
    assert(catalogue()[44].name@.len() == 13);
    assert(catalogue()[0].name@[0] == 'C' && catalogue()[37].name@[0] == 'U');
    assert(catalogue()[0].name@ != catalogue()[37].name@);
    assert(catalogue()[35].name@[0] == 'C' && catalogue()[37].name@[0] == 'U');
    assert(catalogue()[35].name@ != catalogue()[37].name@);
    assert(catalogue()[31].name@[0] == 'U' && catalogue()[38].name@[0] == 'S');
    assert(catalogue()[31].name@ != catalogue()[38].name@);
    assert(catalogue()[8].name@[0] == 'P' && catalogue()[40].name@[0] == 'M');
    assert(catalogue()[8].name@ != catalogue()[40].name@);
    assert(catalogue()[17].name@[1] == 'E' && catalogue()[40].name@[1] == 'O');
    assert(catalogue()[17].name@ != catalogue()[40].name@);
    assert(catalogue()[27].name@[1] == 'A' && catalogue()[40].name@[1] == 'O');
    assert(catalogue()[27].name@ != catalogue()[40].name@);
    assert(catalogue()[32].name@[0] == 'R' && catalogue()[40].name@[0] == 'M');
    assert(catalogue()[32].name@ != catalogue()[40].name@);
    assert(catalogue()[7].name@[0] == 'V' && catalogue()[42].name@[0] == 'U');
    assert(catalogue()[7].name@ != catalogue()[42].name@);
    assert(catalogue()[23].name@[0] == 'D' && catalogue()[42].name@[0] == 'U');
    assert(catalogue()[23].name@ != catalogue()[42].name@);
    assert(catalogue()[34].name@[0] == 'M' && catalogue()[42].name@[0] == 'U');
    assert(catalogue()[34].name@ != catalogue()[42].name@);
    assert(catalogue()[30].name@[0] == 'M' && catalogue()[43].name@[0] == 'C');
    assert(catalogue()[30].name@ != catalogue()[43].name@);
    assert(catalogue()[3].name@[0] == 'A' && catalogue()[44].name@[0] == 'C');
    assert(catalogue()[3].name@ != catalogue()[44].name@);
    assert(catalogue()[6].name@[0] == 'A' && catalogue()[44].name@[0] == 'C');
    assert(catalogue()[6].name@ != catalogue()[44].name@);
    assert(catalogue()[11].name@[0] == 'S' && catalogue()[44].name@[0] == 'C');
    assert(catalogue()[11].name@ != catalogue()[44].name@);
    assert(catalogue()[33].name@[0] == 'M' && catalogue()[44].name@[0] == 'C');
    assert(catalogue()[33].name@ != catalogue()[44].name@);
    assert(finds_itself(36));
    assert(finds_itself(37));
    assert(finds_itself(38));
    assert(finds_itself(39));
    assert(finds_itself(40));
    assert(finds_itself(41));
    assert(finds_itself(42));
    assert(finds_itself(43));
    assert(finds_itself(44));
    assert forall|i: int| 36 <= i <= 44 implies #[trigger] finds_itself(i) by {
        if i == 36 {} else if i == 37 {} else if i == 38 {} else if i == 39 {} else if i == 40 {} else if i == 41 {} else if i == 42 {} else if i == 43 {} else if i == 44 {}
    }
}

/// The permissions 45 to 52 are found by their own names: each earlier
/// name differs in length or, at equal length, in a character.
proof fn lemma_finds_itself_45_to_52()
    ensures
        forall|i: int| 45 <= i <= 52 ==> #[trigger] finds_itself(i),
{
    reveal_with_fuel(first_named_from, 54);
    reveal_strlit("CREATE_INSTANT_INVITE");
    reveal_strlit("KICK_MEMBERS");
    reveal_strlit("BAN_MEMBERS");
    reveal_strlit("ADMINISTRATOR");
    reveal_strlit("MANAGE_CHANNELS");
    reveal_strlit("MANAGE_GUILD");
    reveal_strlit("ADD_REACTIONS");
    reveal_strlit("VIEW_AUDIT_LOG");
    reveal_strlit("PRIORITY_SPEAKER");
    reveal_strlit("STREAM");
    reveal_strlit("VIEW_CHANNEL");
    reveal_strlit("SEND_MESSAGES");
    reveal_strlit("SEND_TTS_MESSAGES");
    reveal_strlit("MANAGE_MESSAGES");
    reveal_strlit("EMBED_LINKS");
    reveal_strlit("ATTACH_FILES");
    reveal_strlit("READ_MESSAGE_HISTORY");
    reveal_strlit("MENTION_EVERYONE");
    reveal_strlit("USE_EXTERNAL_EMOJIS");
    reveal_strlit("VIEW_GUILD_INSIGHTS");
    reveal_strlit("CONNECT");
    reveal_strlit("SPEAK");
    reveal_strlit("MUTE_MEMBERS");
    reveal_strlit("DEAFEN_MEMBERS");
    reveal_strlit("MOVE_MEMBERS");
    reveal_strlit("USE_VAD");
    reveal_strlit("CHANGE_NICKNAME");
    reveal_strlit("MANAGE_NICKNAMES");
    reveal_strlit("MANAGE_ROLES");
    reveal_strlit("MANAGE_WEBHOOKS");
    reveal_strlit("MANAGE_EXPRESSIONS");
    reveal_strlit("USE_APPLICATION_COMMANDS");
    reveal_strlit("REQUEST_TO_SPEAK");
    reveal_strlit("MANAGE_EVENTS");
    reveal_strlit("MANAGE_THREADS");
    reveal_strlit("CREATE_PUBLIC_THREADS");
    reveal_strlit("CREATE_PRIVATE_THREADS");
    reveal_strlit("USE_EXTERNAL_STICKERS");
    reveal_strlit("SEND_MESSAGES_IN_THREADS");
    reveal_strlit("USE_EMBEDDED_ACTIVITIES");
    reveal_strlit("MODERATE_MEMBERS");
    reveal_strlit("VIEW_CREATOR_MONETIZATION_ANALYTICS");
    reveal_strlit("USE_SOUNDBOARD");
    reveal_strlit("CREATE_EXPRESSIONS");
    reveal_strlit("CREATE_EVENTS");
    reveal_strlit("USE_EXTERNAL_SOUNDS");
    reveal_strlit("SEND_VOICE_MESSAGES");
    reveal_strlit("SET_VOICE_CHANNEL_STATUS");
    reveal_strlit("SEND_POLLS");
    reveal_strlit("USE_EXTERNAL_APPS");
    reveal_strlit("PIN_MESSAGES");
    reveal_strlit("BYPASS_SLOWMODE");
    reveal_strlit("MANAGE_OFFICIAL_MESSAGES");
    assert(catalogue()[0].name@.len() == 21);
    assert(catalogue()[1].name@.len() == 12);
    assert(catalogue()[2].name@.len() == 11);
    assert(catalogue()[3].name@.len() == 13);
    assert(catalogue()[4].name@.len() == 15);
    assert(catalogue()[5].name@.len() == 12);
    assert(catalogue()[6].name@.len() == 13);
    assert(catalogue()[7].name@.len() == 14);
    assert(catalogue()[8].name@.len() == 16);
    assert(catalogue()[9].name@.len() == 6);
    assert(catalogue()[10].name@.len() == 12);
    assert(catalogue()[11].name@.len() == 13);
    assert(catalogue()[12].name@.len() == 17);
    assert(catalogue()[13].name@.len() == 15);
    assert(catalogue()[14].name@.len() == 11);
    assert(catalogue()[15].name@.len() == 12);
    assert(catalogue()[16].name@.len() == 20);
    assert(catalogue()[17].name@.len() == 16);
    assert(catalogue()[18].name@.len() == 19);
    assert(catalogue()[19].name@.len() == 19);
    assert(catalogue()[20].name@.len() == 7);
    assert(catalogue()[21].name@.len() == 5);
    assert(catalogue()[22].name@.len() == 12);
    assert(catalogue()[23].name@.len() == 14);
    assert(catalogue()[24].name@.len() == 12);
    assert(catalogue()[25].name@.len() == 7);
    assert(catalogue()[26].name@.len() == 15);
    assert(catalogue()[27].name@.len() == 16);
    assert(catalogue()[28].name@.len() == 12);
    assert(catalogue()[29].name@.len() == 15);
    assert(catalogue()[30].name@.len() == 18);
    assert(catalogue()[31].name@.len() == 24);
    assert(catalogue()[32].name@.len() == 16);
    assert(catalogue()[33].name@.len() == 13);
    assert(catalogue()[34].name@.len() == 14);
    assert(catalogue()[35].name@.len() == 21);
    assert(catalogue()[36].name@.len() == 22);
    assert(catalogue()[37].name@.len() == 21);
    assert(catalogue()[38].name@.len() == 24);
    assert(catalogue()[39].name@.len() == 23);
    assert(catalogue()[40].name@.len() == 16);
    assert(catalogue()[41].name@.len() == 35);
    assert(catalogue()[42].name@.len() == 14);
    assert(catalogue()[43].name@.len() == 18);
    assert(catalogue()[44].name@.len() == 13);
    assert(catalogue()[45].name@.len() == 19);
    assert(catalogue()[46].name@.len() == 19);
    assert(catalogue()[47].name@.len() == 24);
    assert(catalogue()[48].name@.len() == 10);
    assert(catalogue()[49].name@.len() == 17);
    assert(catalogue()[50].name@.len() == 12);
    assert(catalogue()[51].name@.len() == 15);
    assert(catalogue()[52].name@.len() == 24);
    assert(catalogue()[18].name@[13] == 'E' && catalogue()[45].name@[13] == 'S');
    assert(catalogue()[18].name@ != catalogue()[45].name@);
    assert(catalogue()[19].name@[0] == 'V' && catalogue()[45].name@[0] == 'U');
    assert(catalogue()[19].name@ != catalogue()[45].name@);
    assert(catalogue()[18].name@[0] == 'U' && catalogue()[46].name@[0] == 'S');
    assert(catalogue()[18].name@ != catalogue()[46].name@);
    assert(catalogue()[19].name@[0] == 'V' && catalogue()[46].name@[0] == 'S');
    assert(catalogue()[19].name@ != catalogue()[46].name@);
    assert(catalogue()[45].name@[0] == 'U' && catalogue()[46].name@[0] == 'S');
    assert(catalogue()[45].name@ != catalogue()[46].name@);
    assert(catalogue()[31].name@[0] == 'U' && catalogue()[47].name@[0] == 'S');
    assert(catalogue()[31].name@ != catalogue()[47].name@);
    assert(catalogue()[38].name@[2] == 'N' && catalogue()[47].name@[2] == 'T');
    assert(catalogue()[38].name@ != catalogue()[47].name@);
    assert(catalogue()[12].name@[0] == 'S' && catalogue()[49].name@[0] == 'U');
    assert(catalogue()[12].name@ != catalogue()[49].name@);
    assert(catalogue()[1].name@[0] == 'K' && catalogue()[50].name@[0] == 'P');
    assert(catalogue()[1].name@ != catalogue()[50].name@);
    assert(catalogue()[5].name@[0] == 'M' && catalogue()[50].name@[0] == 'P');
    assert(catalogue()[5].name@ != catalogue()[50].name@);
    assert(catalogue()[10].name@[0] == 'V' && catalogue()[50].name@[0] == 'P');
    assert(catalogue()[10].name@ != catalogue()[50].name@);
    assert(catalogue()[15].name@[0] == 'A' && catalogue()[50].name@[0] == 'P');
    assert(catalogue()[15].name@ != catalogue()[50].name@);
    assert(catalogue()[22].name@[0] == 'M' && catalogue()[50].name@[0] == 'P');
    assert(catalogue()[22].name@ != catalogue()[50].name@);
    assert(catalogue()[24].name@[0] == 'M' && catalogue()[50].name@[0] == 'P');
    assert(catalogue()[24].name@ != catalogue()[50].name@);
    assert(catalogue()[28].name@[0] == 'M' && catalogue()[50].name@[0] == 'P');
    assert(catalogue()[28].name@ != catalogue()[50].name@);
    assert(catalogue()[4].name@[0] == 'M' && catalogue()[51].name@[0] == 'B');
    assert(catalogue()[4].name@ != catalogue()[51].name@);
    assert(catalogue()[13].name@[0] == 'M' && catalogue()[51].name@[0] == 'B');
    assert(catalogue()[13].name@ != catalogue()[51].name@);
    assert(catalogue()[26].name@[0] == 'C' && catalogue()[51].name@[0] == 'B');
    assert(catalogue()[26].name@ != catalogue()[51].name@);
    assert(catalogue()[29].name@[0] == 'M' && catalogue()[51].name@[0] == 'B');
    assert(catalogue()[29].name@ != catalogue()[51].name@);
    assert(catalogue()[31].name@[0] == 'U' && catalogue()[52].name@[0] == 'M');
    assert(catalogue()[31].name@ != catalogue()[52].name@);
    assert(catalogue()[38].name@[0] == 'S' && catalogue()[52].name@[0] == 'M');
    assert(catalogue()[38].name@ != catalogue()[52].name@);
    assert(catalogue()[47].name@[0] == 'S' && catalogue()[52].name@[0] == 'M');
    assert(catalogue()[47].name@ != catalogue()[52].name@);
    assert(finds_itself(45));
    assert(finds_itself(46));
    assert(finds_itself(47));
    assert(finds_itself(48));
    assert(finds_itself(49));
    assert(finds_itself(50));
    assert(finds_itself(51));
    assert(finds_itself(52));
    assert forall|i: int| 45 <= i <= 52 implies #[trigger] finds_itself(i) by {
        if i == 45 {} else if i == 46 {} else if i == 47 {} else if i == 48 {} else if i == 49 {} else if i == 50 {} else if i == 51 {} else if i == 52 {}
    }
}

/// Law: every permission in the catalogue is found by its own name, and no
/// two share a name.
pub proof fn law_catalogue_names_are_distinct()
    ensures
        forall|i: int| 0 <= i < CATALOGUE_LEN ==> #[trigger] first_named_from(catalogue()[i].name@, 0) == Some(catalogue()[i]),
        forall|i: int, j: int| 0 <= i < j < CATALOGUE_LEN ==> #[trigger] catalogue()[i].name@ != #[trigger] catalogue()[j].name@,
{
    lemma_finds_itself_0_to_8();
    lemma_finds_itself_9_to_17();
    lemma_finds_itself_18_to_26();
    lemma_finds_itself_27_to_35();
    lemma_finds_itself_36_to_44();
    lemma_finds_itself_45_to_52();
    law_catalogue_bits_are_distinct();
    assert forall|i: int| 0 <= i < CATALOGUE_LEN implies #[trigger] first_named_from(catalogue()[i].name@, 0) == Some(catalogue()[i]) by {
        assert(finds_itself(i));
    }
    assert forall|i: int, j: int| 0 <= i < j < CATALOGUE_LEN implies #[trigger] catalogue()[i].name@ != #[trigger] catalogue()[j].name@ by {
        assert(finds_itself(i));
        assert(finds_itself(j));
        assert(catalogue()[i].bit != catalogue()[j].bit);
    }
}

/// Law: setting a permission sets it, clearing it clears it, and neither
/// touches any other bit.
pub proof fn law_set_and_clear(permissions: u64, bit: u8, other: u8, allowed: bool)
    requires
        bit < 64,
        other < 64,
    ensures
        (with_spec(permissions, bit, allowed) & mask_of(bit) != 0) == allowed,
        other != bit ==> (with_spec(permissions, bit, allowed) & mask_of(other) != 0) == (permissions & mask_of(other) != 0),
        with_spec(with_spec(permissions, bit, true), bit, false) == with_spec(permissions, bit, false),
        with_spec(with_spec(permissions, bit, false), bit, true) == with_spec(permissions, bit, true),
{
    assert((if allowed { permissions | (1u64 << bit) } else { permissions & !(1u64 << bit) }) & (1u64 << bit) != 0 <==> allowed) by (bit_vector)
        requires
            bit < 64,
    ;
    assert(other != bit ==> (((if allowed { permissions | (1u64 << bit) } else { permissions & !(1u64 << bit) }) & (1u64 << other) != 0) <==> (permissions & (1u64 << other) != 0))) by (bit_vector)
        requires
            bit < 64,
            other < 64,
    ;
    assert((permissions | (1u64 << bit)) & !(1u64 << bit) == permissions & !(1u64 << bit)) by (bit_vector)
        requires
            bit < 64,
    ;
    assert((permissions & !(1u64 << bit)) | (1u64 << bit) == permissions | (1u64 << bit)) by (bit_vector)
        requires
            bit < 64,
    ;
}

} // verus!
