//! Stage instances, and asking to speak on one.
//!
//! A stage channel is a voice channel with an audience. The instance is the
//! live session in it: its topic, and the fact that it is running at all.
use vstd::prelude::*;

use crate::ids::marker::ChannelMarker;
use crate::ids::Id;
use crate::json::{entries, obj_get, put, str_value, Json, JsonValue};
use crate::text::{char_count, decimal, decimal_string, parse_u64, parse_u64_seq, take_chars, trim, trim_seq};

verus! {

/// Discord's caps on a stage topic, in characters.
pub const MIN_STAGE_TOPIC_CHARS: usize = 1;
pub const MAX_STAGE_TOPIC_CHARS: usize = 120;

/// Who gets told a stage has started.
#[derive(Clone, Copy, Debug, PartialEq, Eq, Structural)]
pub enum StagePrivacy {
    /// Members of this server only: the one level Discord still accepts.
    GuildOnly,
}

impl StagePrivacy {
    /// The level as Discord numbers it.
    pub fn code(self) -> (c: u8)
        ensures
            c == 2,
    {
        match self {
            StagePrivacy::GuildOnly => 2,
        }
    }
}

/// A live stage.
#[derive(Clone, Debug, PartialEq, Eq)]
pub struct StageInstance {
    pub id: u64,
    pub channel_id: Id<ChannelMarker>,
    pub topic: String,
}

/// Why Discord would refuse a topic, counted in characters once trimmed.
pub open spec fn stage_topic_problem_of(topic: Seq<char>) -> Option<Seq<char>> {
    let count = trim_seq(topic).len();
    if count < MIN_STAGE_TOPIC_CHARS {
        Some("needs a topic"@)
    } else if count > MAX_STAGE_TOPIC_CHARS {
        Some("topic is too long"@)
    } else {
        None
    }
}

/// Whether Discord would accept this as a stage topic, and if not, why.
pub fn stage_topic_problem(topic: &str) -> (p: Option<&'static str>)
    ensures
        p.deep_view() == stage_topic_problem_of(topic@),
{
    let count = char_count(trim(topic));
    if count < MIN_STAGE_TOPIC_CHARS {
        return Some("needs a topic");
    }
    if count > MAX_STAGE_TOPIC_CHARS {
        return Some("topic is too long");
    }
    None
}

/// A stage instance as Discord sends it.
pub struct StageInstanceBody {
    pub id: Option<String>,
    pub channel_id: Option<String>,
    pub topic: Option<String>,
}

pub open spec fn parsed(o: Option<String>) -> Option<u64> {
    match o {
        Some(s) => parse_u64_seq(s@),
        None => None,
    }
}

/// The running stage a body describes, in the channel that was asked
/// about unless the body names another. Without a readable id there is no
/// stage to address, so none.
pub fn stage_instance_from_body(body: StageInstanceBody, channel_id: Id<ChannelMarker>) -> (s: Option<StageInstance>)
    requires
        parsed(body.channel_id) != Some(0u64),
    ensures
        s is Some <==> parsed(body.id) is Some,
        s matches Some(st) ==> {
            &&& st.id == parsed(body.id).unwrap()
            &&& st.channel_id@ == match parsed(body.channel_id) {
                Some(c) => c,
                None => channel_id@,
            }
            &&& st.topic@ == match body.topic {
                Some(t) => t@,
                None => Seq::empty(),
            }
        },
{
    let id = match &body.id {
        Some(text) => match parse_u64(text.as_str()) {
            Some(v) => v,
            None => return None,
        },
        None => return None,
    };
    let channel = match &body.channel_id {
        Some(text) => match parse_u64(text.as_str()) {
            Some(v) => Id::new(v),
            None => channel_id,
        },
        None => channel_id,
    };
    Some(StageInstance {
        id,
        channel_id: channel,
        topic: match body.topic {
            Some(t) => t,
            None => String::new(),
        },
    })
}

/// The body that opens a stage: the channel, the topic cut to Discord's cap,
/// and the privacy level.
pub fn start_stage_body(channel_id: Id<ChannelMarker>, topic: &str, privacy: StagePrivacy) -> (body: JsonValue)
    ensures
        body.model() is Object,
        forall|k: Seq<char>| #[trigger] obj_get(entries(body.model()), k) == if k == "channel_id"@ {
            Some(Json::Str(decimal(channel_id@ as nat)))
        } else if k == "privacy_level"@ {
            Some(Json::Num(2))
        } else if k == "topic"@ {
            Some(Json::Str(topic@.take(if topic@.len() <= MAX_STAGE_TOPIC_CHARS { topic@.len() as int } else { MAX_STAGE_TOPIC_CHARS as int })))
        } else {
            None
        },
{
    let mut fields: Vec<(String, JsonValue)> = Vec::new();
    put(&mut fields, "topic", JsonValue::Str(take_chars(topic, MAX_STAGE_TOPIC_CHARS)));
    put(&mut fields, "privacy_level", JsonValue::UInt(privacy.code() as u64));
    put(&mut fields, "channel_id", JsonValue::Str(decimal_string(channel_id.get())));
    JsonValue::Object(fields)
}

/// The body that changes a running stage's topic, cut to Discord's cap.
pub fn stage_topic_body(topic: &str) -> (body: JsonValue)
    ensures
        body.model() is Object,
        forall|k: Seq<char>| #[trigger] obj_get(entries(body.model()), k) == if k == "topic"@ {
            Some(Json::Str(topic@.take(if topic@.len() <= MAX_STAGE_TOPIC_CHARS { topic@.len() as int } else { MAX_STAGE_TOPIC_CHARS as int })))
        } else {
            None
        },
{
    let mut fields: Vec<(String, JsonValue)> = Vec::new();
    put(&mut fields, "topic", JsonValue::Str(take_chars(topic, MAX_STAGE_TOPIC_CHARS)));
    JsonValue::Object(fields)
}

/// The voice-state body that raises a hand (any timestamp will do: Discord
/// orders the queue by arrival) or, with null, lowers it.
pub fn request_to_speak_body(channel_id: Id<ChannelMarker>, requesting: bool) -> (body: JsonValue)
    ensures
        body.model() is Object,
        forall|k: Seq<char>| #[trigger] obj_get(entries(body.model()), k) == if k == "channel_id"@ {
            Some(Json::Str(decimal(channel_id@ as nat)))
        } else if k == "request_to_speak_timestamp"@ {
            Some(if requesting { Json::Str("1970-01-01T00:00:00Z"@) } else { Json::Null })
        } else {
            None
        },
{
    let mut fields: Vec<(String, JsonValue)> = Vec::new();
    let stamp = if requesting { str_value("1970-01-01T00:00:00Z") } else { JsonValue::Null };
    put(&mut fields, "request_to_speak_timestamp", stamp);
    put(&mut fields, "channel_id", JsonValue::Str(decimal_string(channel_id.get())));
    JsonValue::Object(fields)
}

/// The voice-state body that invites someone to speak or moves them back
/// to the audience: a suppressed member is one whose microphone does nothing.
pub fn stage_speaker_body(channel_id: Id<ChannelMarker>, speaking: bool) -> (body: JsonValue)
    ensures
        body.model() is Object,
        forall|k: Seq<char>| #[trigger] obj_get(entries(body.model()), k) == if k == "channel_id"@ {
            Some(Json::Str(decimal(channel_id@ as nat)))
        } else if k == "suppress"@ {
            Some(Json::Bool(!speaking))
        } else {
            None
        },
{
    let mut fields: Vec<(String, JsonValue)> = Vec::new();
    put(&mut fields, "suppress", JsonValue::Bool(!speaking));
    put(&mut fields, "channel_id", JsonValue::Str(decimal_string(channel_id.get())));
    JsonValue::Object(fields)
}

/// What submitting a stage topic should send. Picking the wrong endpoint
/// always fails: start rejects a running stage, its patch rejects one that
/// is not running, and an emptied topic means end rather than either.
#[derive(Clone, Copy, Debug, PartialEq, Eq, Structural)]
pub enum StageAction {
    Start,
    ChangeTopic,
    End,
}

pub open spec fn stage_action_of(topic: Seq<char>, already_running: bool) -> StageAction {
    if trim_seq(topic).len() == 0 {
        StageAction::End
    } else if already_running {
        StageAction::ChangeTopic
    } else {
        StageAction::Start
    }
}

pub fn stage_action_for(topic: &str, already_running: bool) -> (a: StageAction)
    ensures
        a == stage_action_of(topic@, already_running),
{
    if char_count(trim(topic)) == 0 {
        return StageAction::End;
    }
    if already_running {
        StageAction::ChangeTopic
    } else {
        StageAction::Start
    }
}

/// A topic Discord accepts never ends a stage: it starts one or changes the
/// running one's topic, as the stage is running or not.
pub proof fn law_an_accepted_topic_never_ends_the_stage(topic: Seq<char>, already_running: bool)
    requires
        stage_topic_problem_of(topic) is None,
    ensures
        stage_action_of(topic, already_running) == if already_running { StageAction::ChangeTopic } else { StageAction::Start },
{
}

} // verus!
