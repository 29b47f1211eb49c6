//! Go Live streams: a stream starting, its media server, and its end.
use vstd::prelude::*;

use crate::gateway::frame::{bool_field, str_field};
use crate::gateway::parser::{flag_at, id_at, id_field, text_at, text_field};
use crate::gateway::session::opt_view;
use crate::ids::marker::ChannelMarker;
use crate::ids::Id;
use crate::json::{Json, JsonValue};
use crate::text::owned;

verus! {

/// A stream that started: the key that names it and the media server it
/// runs on.
#[derive(Clone, Debug, PartialEq, Eq)]
pub struct StreamCreateInfo {
    pub stream_key: String,
    pub rtc_server_id: String,
    pub rtc_channel_id: Id<ChannelMarker>,
}

/// Where a stream's media goes, and the token to join it with.
#[derive(Clone, Debug, PartialEq, Eq)]
pub struct StreamServerInfo {
    pub stream_key: String,
    /// `None` while Discord is still picking a server.
    pub endpoint: Option<String>,
    pub token: String,
}

/// A stream that ended, and why.
#[derive(Clone, Debug, PartialEq, Eq)]
pub struct StreamDeleteInfo {
    pub stream_key: String,
    pub reason: String,
    pub unavailable: bool,
}

/// A `STREAM_CREATE`: all three of key, server and channel are required.
pub fn parse_stream_create(data: &JsonValue) -> (r: Option<StreamCreateInfo>)
    ensures
        ({
            let j = data.model();
            &&& r is Some <==> (text_field(j, "stream_key"@) is Some && text_field(j, "rtc_server_id"@) is Some
                && id_field(j, "rtc_channel_id"@) is Some)
            &&& r matches Some(s) ==> {
                &&& Some(s.stream_key@) == text_field(j, "stream_key"@)
                &&& Some(s.rtc_server_id@) == text_field(j, "rtc_server_id"@)
                &&& Some(s.rtc_channel_id@) == id_field(j, "rtc_channel_id"@)
            }
        }),
{
    let stream_key = match text_at(data, "stream_key") {
        Some(t) => t,
        None => return None,
    };
    let rtc_server_id = match text_at(data, "rtc_server_id") {
        Some(t) => t,
        None => return None,
    };
    let rtc_channel_id = match id_at(data, "rtc_channel_id") {
        Some(i) => i,
        None => return None,
    };
    Some(StreamCreateInfo { stream_key, rtc_server_id, rtc_channel_id })
}

/// A `STREAM_SERVER_UPDATE`: key and token are required; an empty or null
/// endpoint is none yet.
pub fn parse_stream_server_update(data: &JsonValue) -> (r: Option<StreamServerInfo>)
    ensures
        ({
            let j = data.model();
            &&& r is Some <==> (text_field(j, "stream_key"@) is Some && text_field(j, "token"@) is Some)
            &&& r matches Some(s) ==> {
                &&& Some(s.stream_key@) == text_field(j, "stream_key"@)
                &&& Some(s.token@) == text_field(j, "token"@)
                &&& opt_view(s.endpoint) == text_field(j, "endpoint"@)
            }
        }),
{
    let stream_key = match text_at(data, "stream_key") {
        Some(t) => t,
        None => return None,
    };
    let token = match text_at(data, "token") {
        Some(t) => t,
        None => return None,
    };
    Some(StreamServerInfo { stream_key, endpoint: text_at(data, "endpoint"), token })
}

/// The reason an object gives as text, empty when it gives none.
pub open spec fn reason_of(j: Json) -> Seq<char> {
    match str_field(j, "reason"@) {
        Some(t) => t,
        None => Seq::empty(),
    }
}

/// A `STREAM_DELETE`: the key is required; the reason reads empty and the
/// flag false when absent.
pub fn parse_stream_delete(data: &JsonValue) -> (r: Option<StreamDeleteInfo>)
    ensures
        ({
            let j = data.model();
            &&& r is Some <==> text_field(j, "stream_key"@) is Some
            &&& r matches Some(s) ==> {
                &&& Some(s.stream_key@) == text_field(j, "stream_key"@)
                &&& s.reason@ == reason_of(j)
                &&& s.unavailable == (bool_field(j, "unavailable"@) == Some(true))
            }
        }),
{
    let stream_key = match text_at(data, "stream_key") {
        Some(t) => t,
        None => return None,
    };
    let reason = match data.get("reason") {
        Some(x) => match x.as_str() {
            Some(t) => owned(t),
            None => String::new(),
        },
        None => String::new(),
    };
    Some(StreamDeleteInfo { stream_key, reason, unavailable: flag_at(data, "unavailable") })
}

} // verus!
