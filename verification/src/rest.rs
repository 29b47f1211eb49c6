//! What the REST API is sent and what its answers become: validation, edit
//! bodies, labels and summaries.
pub mod account;
pub mod automod;
pub mod channel_management;
pub mod connections;
pub mod discovery;
pub mod discovery_metadata;
pub mod events;
pub mod guild_management;
pub mod guild_settings;
pub mod upload;
pub mod invites;
pub mod membership;
pub mod moderation;
pub mod onboarding;
pub mod phone;
pub mod privacy;
pub mod relationships;
pub mod roles;
pub mod sessions;
pub mod soundboard;
pub mod stage;
pub mod stickers;
