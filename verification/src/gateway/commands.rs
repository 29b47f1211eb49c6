//! What the rest of the client asks of the gateway, and how each request
//! becomes a frame, a queued member request, or nothing.
use vstd::prelude::*;

use crate::gateway::activity::presence_payload;
use crate::gateway::payloads::{
    channel_view, create_stream_json, create_stream_payload, delete_stream_payload, direct_message_subscribe_payload,
    dm_subscribe_json, guild_channel_subscribe_payload, guild_subscribe_json, guild_view, op_frame, presence_update_payload,
    stream_key_json, voice_state_json, voice_state_update_payload, watch_stream_payload, GatewayPresence, VoiceScope,
    lemma_op_frame_fields,
};
use crate::gateway::scheduler::{covered, drop_expired, live_limits, GuildMemberRequestKind, GuildMemberRequest, GuildMemberRequestScheduler, PendingGuildMemberRequest};
use crate::ids::marker::{ChannelMarker, GuildMarker, UserMarker};
use crate::ids::Id;
use crate::json::{field, insert_sorted, lemma_get_insert, serialize, Json};
use crate::presence::{ActivityInfo, PresenceStatus};

verus! {

/// A voice state to send on the way out, leaving a call cleanly.
#[derive(Clone, Copy, Debug, PartialEq, Eq)]
pub struct GatewayVoiceStateUpdate {
    pub guild_id: Option<Id<GuildMarker>>,
    pub channel_id: Option<Id<ChannelMarker>>,
    pub self_mute: bool,
    pub self_deaf: bool,
}

#[derive(Debug, PartialEq, Eq)]
pub enum GatewayCommand {
    SearchGuildMembers { guild_id: Id<GuildMarker>, query: String, limit: u16, presences: bool, nonce: String },
    RequestGuildMembersByIds { guild_id: Id<GuildMarker>, user_ids: Vec<Id<UserMarker>>, presences: bool },
    SubscribeDirectMessage { channel_id: Id<ChannelMarker> },
    SubscribeGuildChannel { guild_id: Id<GuildMarker>, channel_id: Id<ChannelMarker> },
    UpdateMemberListSubscription {
        guild_id: Id<GuildMarker>,
        channel_id: Id<ChannelMarker>,
        thread_id: Option<Id<ChannelMarker>>,
        ranges: Vec<(u32, u32)>,
    },
    /// `guild_id` is `None` for direct message and group calls.
    UpdateVoiceState {
        guild_id: Option<Id<GuildMarker>>,
        channel_id: Option<Id<ChannelMarker>>,
        self_mute: bool,
        self_deaf: bool,
    },
    WatchStream { stream_key: String },
    CreateStream { scope: VoiceScope, channel_id: Id<ChannelMarker> },
    DeleteStream { stream_key: String },
    UpdatePresence { status: PresenceStatus, activities: Vec<ActivityInfo> },
    Shutdown { voice_leave: Option<GatewayVoiceStateUpdate> },
}

/// The direct message channels already subscribed to on this connection.
#[derive(Debug, Default)]
pub struct SubscriptionDeduper {
    pub direct_messages: Vec<Id<ChannelMarker>>,
}

pub open spec fn has_channel(v: Seq<Id<ChannelMarker>>, c: u64) -> bool {
    exists|k: int| 0 <= k < v.len() && v[k]@ == c
}

impl SubscriptionDeduper {
    /// Whether a command should go out: a direct message subscription only
    /// the first time on a connection; everything else always.
    pub fn should_send(&mut self, command: &GatewayCommand) -> (send: bool)
        ensures
            match command {
                GatewayCommand::SubscribeDirectMessage { channel_id } => {
                    &&& send == !has_channel(old(self).direct_messages@, channel_id@)
                    &&& has_channel(final(self).direct_messages@, channel_id@)
                    &&& forall|c: u64| has_channel(old(self).direct_messages@, c) ==> has_channel(final(self).direct_messages@, c)
                },
                _ => send && final(self).direct_messages@ == old(self).direct_messages@,
            },
    {
        match command {
            GatewayCommand::SubscribeDirectMessage { channel_id } => {
                let n = self.direct_messages.len();
                let mut i: usize = 0;
                while i < n
                    invariant
                        n == self.direct_messages@.len(),
                        i <= n,
                        forall|k: int| 0 <= k < i ==> (#[trigger] self.direct_messages@[k])@ != channel_id@,
                        self.direct_messages@ == old(self).direct_messages@,
                        *command == (GatewayCommand::SubscribeDirectMessage { channel_id: *channel_id }),
                    decreases n - i,
                {
                    if self.direct_messages[i].get() == channel_id.get() {
                        proof {
                            assert(self.direct_messages@[i as int]@ == channel_id@);
                            assert(has_channel(self.direct_messages@, channel_id@));
                            assert(has_channel(old(self).direct_messages@, channel_id@));
                        }
                        return false;
                    }
                    i = i + 1;
                }
                let ghost before = self.direct_messages@;
                self.direct_messages.push(*channel_id);
                proof {
                    assert(self.direct_messages@[before.len() as int] == *channel_id);
                    assert forall|c: u64| has_channel(before, c) implies has_channel(self.direct_messages@, c) by {
                        let k = choose|k: int| 0 <= k < before.len() && before[k]@ == c;
                        assert(self.direct_messages@[k] == before[k]);
                    }
                }
                true
            },
            _ => true,
        }
    }
}

/// What a session keeps between commands: the member request queue and the
/// presence a re-identify restores.
#[derive(Debug)]
pub struct GatewaySessionResources {
    pub guild_member_requests: GuildMemberRequestScheduler,
    pub last_presence: Option<GatewayPresence>,
}

/// What a command became.
#[derive(Debug, PartialEq, Eq)]
pub enum CommandDispatch {
    /// Nothing to send now: a duplicate subscription, a shutdown (handled
    /// by the connection), or a member request that was queued.
    Nothing,
    /// A frame to send, on the urgent queue or the normal one.
    Send { payload: String, urgent: bool },
}

/// The frame a command sends, if it sends one directly.
pub open spec fn command_frame(c: GatewayCommand) -> Option<crate::json::Json> {
    match c {
        GatewayCommand::SubscribeDirectMessage { channel_id } => Some(dm_subscribe_json(channel_id@)),
        GatewayCommand::SubscribeGuildChannel { guild_id, channel_id } => Some(guild_subscribe_json(guild_id@, channel_id@, seq![(0u32, 99u32)], None)),
        GatewayCommand::UpdateMemberListSubscription { guild_id, channel_id, thread_id, ranges } => Some(guild_subscribe_json(
            guild_id@,
            channel_id@,
            ranges@,
            Some(match thread_id {
                Some(t) => seq![t],
                None => Seq::empty(),
            }),
        )),
        GatewayCommand::UpdateVoiceState { guild_id, channel_id, self_mute, self_deaf } => Some(voice_state_json(guild_view(guild_id), channel_view(channel_id), self_mute, self_deaf)),
        GatewayCommand::WatchStream { stream_key } => Some(stream_key_json(20, stream_key@)),
        GatewayCommand::CreateStream { scope, channel_id } => Some(create_stream_json(scope, channel_id@)),
        GatewayCommand::DeleteStream { stream_key } => Some(stream_key_json(19, stream_key@)),
        GatewayCommand::UpdatePresence { status, activities } => Some(op_frame(3, presence_payload(status, activities@))),
        _ => None,
    }
}

/// Voice and stream frames are time-sensitive and jump the queue.
pub open spec fn is_urgent(c: GatewayCommand) -> bool {
    c is UpdateVoiceState || c is WatchStream || c is CreateStream || c is DeleteStream
}

/// Turn a command into what the connection does with it. A duplicate
/// direct message subscription and a shutdown send nothing; member
/// requests are queued on the scheduler (a search may be refused when the
/// queue is full of requests for users); a presence update is remembered
/// for a re-identify; everything else is a frame, urgent for voice and
/// streams.
pub fn dispatch_command(
    command: GatewayCommand,
    deduper: &mut SubscriptionDeduper,
    resources: &mut GatewaySessionResources,
    now: u64,
) -> (d: CommandDispatch)
    ensures
        match command {
            GatewayCommand::SubscribeDirectMessage { channel_id } if has_channel(old(deduper).direct_messages@, channel_id@) => d == CommandDispatch::Nothing,
            GatewayCommand::Shutdown { .. } => d == CommandDispatch::Nothing,
            GatewayCommand::SearchGuildMembers { .. } => d == CommandDispatch::Nothing,
            GatewayCommand::RequestGuildMembersByIds { guild_id, user_ids, presences } => {
                &&& d == CommandDispatch::Nothing
                &&& forall|k: int| 0 <= k < user_ids@.len() ==> covered(final(resources).guild_member_requests.pending@, guild_id@, presences, (#[trigger] user_ids@[k])@)
                &&& GuildMemberRequestScheduler::by_ids_applied(
                    old(resources).guild_member_requests,
                    final(resources).guild_member_requests,
                    guild_id,
                    user_ids@,
                    presences,
                    now,
                )
            },
            _ => d matches CommandDispatch::Send { payload, urgent } && payload@ == serialize(command_frame(command).unwrap()) && urgent == is_urgent(command),
        },
        match command {
            GatewayCommand::UpdatePresence { status, activities } => final(resources).last_presence matches Some(p) && p.status == status && p.activities@ == activities@,
            _ => final(resources).last_presence == old(resources).last_presence,
        },
        match command {
            GatewayCommand::SearchGuildMembers { guild_id, query, limit, presences, nonce } => GuildMemberRequestScheduler::search_applied(
                old(resources).guild_member_requests,
                final(resources).guild_member_requests,
                guild_id,
                query,
                limit,
                presences,
                nonce,
                now,
            ),
            _ => true,
        },
        match command {
            GatewayCommand::SubscribeDirectMessage { channel_id } => {
                &&& has_channel(final(deduper).direct_messages@, channel_id@)
                &&& forall|c: u64| has_channel(old(deduper).direct_messages@, c) ==> has_channel(final(deduper).direct_messages@, c)
            },
            _ => final(deduper).direct_messages@ == old(deduper).direct_messages@,
        },
        !(command is SearchGuildMembers || command is RequestGuildMembersByIds) ==> {
            &&& final(resources).guild_member_requests.pending@ == old(resources).guild_member_requests.pending@
            &&& final(resources).guild_member_requests.in_flight == old(resources).guild_member_requests.in_flight
        },
{
    if !deduper.should_send(&command) {
        return CommandDispatch::Nothing;
    }
    match command {
        GatewayCommand::SearchGuildMembers { guild_id, query, limit, presences, nonce } => {
            resources.guild_member_requests.enqueue_search(guild_id, query, limit, presences, nonce, now);
            CommandDispatch::Nothing
        },
        GatewayCommand::RequestGuildMembersByIds { guild_id, user_ids, presences } => {
            resources.guild_member_requests.enqueue_by_ids(guild_id, user_ids, presences, now);
            CommandDispatch::Nothing
        },
        GatewayCommand::SubscribeDirectMessage { channel_id } => CommandDispatch::Send {
            payload: direct_message_subscribe_payload(channel_id),
            urgent: false,
        },
        GatewayCommand::SubscribeGuildChannel { guild_id, channel_id } => {
            let mut ranges: Vec<(u32, u32)> = Vec::new();
            ranges.push((0u32, 99u32));
            proof {
                assert(ranges@ =~= seq![(0u32, 99u32)]);
            }
            CommandDispatch::Send { payload: guild_channel_subscribe_payload(guild_id, channel_id, &ranges, None), urgent: false }
        },
        GatewayCommand::UpdateMemberListSubscription { guild_id, channel_id, thread_id, ranges } => {
            let mut threads: Vec<Id<ChannelMarker>> = Vec::new();
            if let Some(t) = thread_id {
                threads.push(t);
            }
            proof {
                assert(threads@ =~= match thread_id {
                    Some(t) => seq![t],
                    None => Seq::<Id<ChannelMarker>>::empty(),
                });
            }
            CommandDispatch::Send { payload: guild_channel_subscribe_payload(guild_id, channel_id, &ranges, Some(&threads)), urgent: false }
        },
        GatewayCommand::UpdateVoiceState { guild_id, channel_id, self_mute, self_deaf } => CommandDispatch::Send {
            payload: voice_state_update_payload(guild_id, channel_id, self_mute, self_deaf),
            urgent: true,
        },
        GatewayCommand::WatchStream { stream_key } => CommandDispatch::Send { payload: watch_stream_payload(stream_key.as_str()), urgent: true },
        GatewayCommand::CreateStream { scope, channel_id } => CommandDispatch::Send { payload: create_stream_payload(scope, channel_id), urgent: true },
        GatewayCommand::DeleteStream { stream_key } => CommandDispatch::Send { payload: delete_stream_payload(stream_key.as_str()), urgent: true },
        GatewayCommand::UpdatePresence { status, activities } => {
            let payload = presence_update_payload(status, &activities);
            resources.last_presence = Some(GatewayPresence { status, activities });
            CommandDispatch::Send { payload, urgent: false }
        },
        GatewayCommand::Shutdown { .. } => CommandDispatch::Nothing,
    }
}


proof fn lemma_stream_key_field(op: int, key: Seq<char>)
    ensures
        field(stream_key_json(op, key), "op"@) == Some(Json::Num(op)),
        field(stream_key_json(op, key), "d"@) matches Some(d) && field(d, "stream_key"@) == Some(Json::Str(key)),
{
    let d = Json::Object(insert_sorted(Seq::empty(), "stream_key"@, Json::Str(key)));
    lemma_op_frame_fields(op, d);
    lemma_get_insert(Seq::empty(), "stream_key"@, Json::Str(key), "stream_key"@);
}

/// Each command goes out under the opcode Discord gives it: 13 subscribes
/// to a direct message, 37 to guild channels and their member lists, 4 sets
/// the voice state, 20 watches a stream, 18 creates one and 19 deletes one,
/// 3 updates the presence; a stream command names its stream key in its
/// data. Member requests and a shutdown send no frame of their own.
pub proof fn law_commands_go_out_under_their_own_opcodes(c: GatewayCommand)
    ensures
        match c {
            GatewayCommand::WatchStream { stream_key } => (command_frame(c) matches Some(f) && field(f, "op"@) == Some(Json::Num(20))
                && (field(f, "d"@) matches Some(d) && field(d, "stream_key"@) == Some(Json::Str(stream_key@)))),
            GatewayCommand::DeleteStream { stream_key } => (command_frame(c) matches Some(f) && field(f, "op"@) == Some(Json::Num(19))
                && (field(f, "d"@) matches Some(d) && field(d, "stream_key"@) == Some(Json::Str(stream_key@)))),
            GatewayCommand::CreateStream { .. } => (command_frame(c) matches Some(f) && field(f, "op"@) == Some(Json::Num(18))),
            GatewayCommand::UpdateVoiceState { .. } => (command_frame(c) matches Some(f) && field(f, "op"@) == Some(Json::Num(4))),
            GatewayCommand::UpdatePresence { .. } => (command_frame(c) matches Some(f) && field(f, "op"@) == Some(Json::Num(3))),
            GatewayCommand::SubscribeDirectMessage { .. } => (command_frame(c) matches Some(f) && field(f, "op"@) == Some(Json::Num(13))),
            GatewayCommand::SubscribeGuildChannel { .. } => (command_frame(c) matches Some(f) && field(f, "op"@) == Some(Json::Num(37))),
            GatewayCommand::UpdateMemberListSubscription { .. } => (command_frame(c) matches Some(f) && field(f, "op"@) == Some(
                Json::Num(37),
            )),
            _ => command_frame(c) is None,
        },
{
    match c {
        GatewayCommand::WatchStream { stream_key } => lemma_stream_key_field(20, stream_key@),
        GatewayCommand::DeleteStream { stream_key } => lemma_stream_key_field(19, stream_key@),
        GatewayCommand::CreateStream { scope, channel_id } => {
            let (kind, guild) = match scope {
                VoiceScope::Guild(g) => ("guild"@, crate::gateway::payloads::id_text(g@)),
                VoiceScope::Private(_) => ("call"@, Json::Null),
            };
            let k0 = insert_sorted(Seq::empty(), "type"@, Json::Str(kind));
            let k1 = insert_sorted(k0, "guild_id"@, guild);
            let k2 = insert_sorted(k1, "channel_id"@, crate::gateway::payloads::id_text(channel_id@));
            let k3 = insert_sorted(k2, "preferred_region"@, Json::Null);
            lemma_op_frame_fields(18, Json::Object(k3));
        },
        GatewayCommand::UpdateVoiceState { guild_id, channel_id, self_mute, self_deaf } => {
            let k0 = insert_sorted(Seq::empty(), "guild_id"@, crate::gateway::payloads::opt_id_text(guild_view(guild_id)));
            let k1 = insert_sorted(k0, "channel_id"@, crate::gateway::payloads::opt_id_text(channel_view(channel_id)));
            let k2 = insert_sorted(k1, "self_mute"@, Json::Bool(self_mute));
            let k3 = insert_sorted(k2, "self_deaf"@, Json::Bool(self_deaf));
            lemma_op_frame_fields(4, Json::Object(k3));
        },
        GatewayCommand::UpdatePresence { status, activities } => lemma_op_frame_fields(3, presence_payload(status, activities@)),
        GatewayCommand::SubscribeDirectMessage { channel_id } => {
            lemma_op_frame_fields(13, Json::Object(insert_sorted(Seq::empty(), "channel_id"@, crate::gateway::payloads::id_text(channel_id@))));
        },
        GatewayCommand::SubscribeGuildChannel { guild_id, channel_id } => {
            let subs = insert_sorted(Seq::empty(), crate::text::decimal(guild_id@ as nat), crate::gateway::payloads::subscription_json(channel_id@, seq![(0u32, 99u32)], None));
            lemma_op_frame_fields(37, Json::Object(insert_sorted(Seq::empty(), "subscriptions"@, Json::Object(subs))));
        },
        GatewayCommand::UpdateMemberListSubscription { guild_id, channel_id, thread_id, ranges } => {
            let threads = Some(match thread_id {
                Some(t) => seq![t],
                None => Seq::empty(),
            });
            let subs = insert_sorted(Seq::empty(), crate::text::decimal(guild_id@ as nat), crate::gateway::payloads::subscription_json(channel_id@, ranges@, threads));
            lemma_op_frame_fields(37, Json::Object(insert_sorted(Seq::empty(), "subscriptions"@, Json::Object(subs))));
        },
        _ => {},
    }
}


/// Voice and stream commands jump the queue; subscriptions and presence
/// updates wait their turn.
pub proof fn law_voice_and_stream_commands_are_urgent(c: GatewayCommand)
    ensures
        (c is WatchStream || c is CreateStream || c is DeleteStream || c is UpdateVoiceState) ==> is_urgent(c),
        (c is SubscribeDirectMessage || c is SubscribeGuildChannel || c is UpdateMemberListSubscription || c is UpdatePresence) ==> !is_urgent(c),
{
}

} // verus!
