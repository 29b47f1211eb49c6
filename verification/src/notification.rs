//! Notification settings of servers and channels.
use vstd::prelude::*;

use crate::ids::marker::{ChannelMarker, GuildMarker};
use crate::ids::Id;

verus! {

/// When a server or channel notifies.
#[derive(Clone, Copy, Debug, PartialEq, Eq, Structural)]
pub enum NotificationLevel {
    AllMessages,
    OnlyMentions,
    NoMessages,
    ParentDefault,
}

pub open spec fn notification_level_of(code: u64) -> Option<NotificationLevel> {
    match code {
        0 => Some(NotificationLevel::AllMessages),
        1 => Some(NotificationLevel::OnlyMentions),
        2 => Some(NotificationLevel::NoMessages),
        3 => Some(NotificationLevel::ParentDefault),
        _ => None,
    }
}

impl NotificationLevel {
    /// The level for Discord's code; an unknown code has none.
    pub fn from_code(code: u64) -> (l: Option<Self>)
        ensures
            l == notification_level_of(code),
    {
        match code {
            0 => Some(NotificationLevel::AllMessages),
            1 => Some(NotificationLevel::OnlyMentions),
            2 => Some(NotificationLevel::NoMessages),
            3 => Some(NotificationLevel::ParentDefault),
            _ => None,
        }
    }
}

#[derive(Clone, Debug, PartialEq, Eq)]
pub struct ChannelNotificationOverrideInfo {
    pub channel_id: Id<ChannelMarker>,
    pub message_notifications: Option<NotificationLevel>,
    pub muted: bool,
    pub mute_end_time: Option<String>,
    pub collapsed: bool,
    pub flags: u64,
}

impl ChannelNotificationOverrideInfo {
    /// An override for a channel that changes nothing.
    pub fn test(channel_id: Id<ChannelMarker>) -> (o: Self)
        ensures
            o.channel_id == channel_id,
            o.message_notifications is None,
            !o.muted,
            o.mute_end_time is None,
            !o.collapsed,
            o.flags == 0,
    {
        ChannelNotificationOverrideInfo {
            channel_id,
            message_notifications: None,
            muted: false,
            mute_end_time: None,
            collapsed: false,
            flags: 0,
        }
    }
}

#[derive(Clone, Debug, PartialEq, Eq)]
pub struct GuildNotificationSettingsInfo {
    pub guild_id: Option<Id<GuildMarker>>,
    pub message_notifications: Option<NotificationLevel>,
    pub muted: bool,
    pub mute_end_time: Option<String>,
    pub suppress_everyone: bool,
    pub suppress_roles: bool,
    pub flags: u64,
    pub hide_muted_channels: bool,
    pub mobile_push: bool,
    pub mute_scheduled_events: bool,
    pub notify_highlights: u64,
    pub version: u64,
    pub channel_overrides: Vec<ChannelNotificationOverrideInfo>,
}

impl GuildNotificationSettingsInfo {
    /// Discord's defaults for a server: nothing muted or suppressed, mobile
    /// push on, no overrides.
    pub fn test(guild_id: Option<Id<GuildMarker>>) -> (s: Self)
        ensures
            s.guild_id == guild_id,
            s.message_notifications is None,
            !s.muted,
            s.mute_end_time is None,
            !s.suppress_everyone,
            !s.suppress_roles,
            s.flags == 0,
            !s.hide_muted_channels,
            s.mobile_push,
            !s.mute_scheduled_events,
            s.notify_highlights == 0,
            s.version == 0,
            s.channel_overrides@.len() == 0,
    {
        GuildNotificationSettingsInfo {
            guild_id,
            message_notifications: None,
            muted: false,
            mute_end_time: None,
            suppress_everyone: false,
            suppress_roles: false,
            flags: 0,
            hide_muted_channels: false,
            mobile_push: true,
            mute_scheduled_events: false,
            notify_highlights: 0,
            version: 0,
            channel_overrides: Vec::new(),
        }
    }
}

} // verus!
