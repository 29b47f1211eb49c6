//! A Discord client's library core: identifiers, message and presence
//! models, REST request shapes, and the gateway's session bookkeeping.
use vstd::prelude::*;

pub mod gateway;
pub mod ids;
pub mod json;
pub mod media;
pub mod message;
pub mod notification;
pub mod permissions_catalogue;
pub mod presence;
pub mod remote_config;
pub mod rest;
pub mod secret;
pub mod text;
pub mod totp;

verus! {

} // verus!
