//! Scheduled events and server templates.
use vstd::prelude::*;

use crate::ids::marker::ChannelMarker;
use crate::ids::Id;
use crate::text::{concat2, concat3, decimal, decimal_string, join, join_seq, owned, parse_u64, parse_u64_seq, push_str, views};

verus! {

/// Where a scheduled event happens.
#[derive(Clone, Debug, PartialEq, Eq)]
pub enum EventLocation {
    Channel(Id<ChannelMarker>),
    External(String),
    Unknown,
}

#[derive(Clone, Copy, Debug, PartialEq, Eq, Structural)]
pub enum EventStatus {
    Scheduled,
    Active,
    Completed,
    Cancelled,
    Unknown(u64),
}

pub open spec fn event_status_of(code: u64) -> EventStatus {
    match code {
        1 => EventStatus::Scheduled,
        2 => EventStatus::Active,
        3 => EventStatus::Completed,
        4 => EventStatus::Cancelled,
        other => EventStatus::Unknown(other),
    }
}

pub open spec fn event_status_label(s: EventStatus) -> Seq<char> {
    match s {
        EventStatus::Scheduled => "scheduled"@,
        EventStatus::Active => "happening now"@,
        EventStatus::Completed => "finished"@,
        EventStatus::Cancelled => "cancelled"@,
        EventStatus::Unknown(code) => "status "@ + decimal(code as nat),
    }
}

impl EventStatus {
    pub fn from_code(code: u64) -> (s: Self)
        ensures
            s == event_status_of(code),
    {
        match code {
            1 => EventStatus::Scheduled,
            2 => EventStatus::Active,
            3 => EventStatus::Completed,
            4 => EventStatus::Cancelled,
            other => EventStatus::Unknown(other),
        }
    }

    pub fn label(self) -> (s: String)
        ensures
            s@ == event_status_label(self),
    {
        match self {
            EventStatus::Scheduled => owned("scheduled"),
            EventStatus::Active => owned("happening now"),
            EventStatus::Completed => owned("finished"),
            EventStatus::Cancelled => owned("cancelled"),
            EventStatus::Unknown(code) => concat2("status ", decimal_string(code).as_str()),
        }
    }

    /// Only an event that has not finished can be cancelled; an
    /// unrecognised status is not assumed to be.
    pub fn is_cancellable(self) -> (b: bool)
        ensures
            b == (self == EventStatus::Scheduled || self == EventStatus::Active),
    {
        matches!(self, EventStatus::Scheduled | EventStatus::Active)
    }
}

#[derive(Clone, Debug, PartialEq, Eq)]
pub struct ScheduledEvent {
    pub id: u64,
    pub name: String,
    pub description: Option<String>,
    pub starts_at: Option<String>,
    pub status: EventStatus,
    pub location: EventLocation,
    pub interested: Option<u64>,
}

/// Status, start, where (or that nowhere was given) and interest, joined by
/// " - ".
pub open spec fn event_summary(e: ScheduledEvent) -> Seq<char> {
    let a: Seq<Seq<char>> = seq![event_status_label(e.status)];
    let b = match e.starts_at {
        Some(s) => a.push(s@),
        None => a,
    };
    let c = match e.location {
        EventLocation::Channel(_) => b.push("in a channel here"@),
        EventLocation::External(p) => if p@.len() > 0 { b.push(p@) } else { b.push("no location given"@) },
        EventLocation::Unknown => b.push("no location given"@),
    };
    let d = match e.interested {
        Some(n) => c.push(decimal(n as nat) + " interested"@),
        None => c,
    };
    join_seq(d, " - "@)
}

impl ScheduledEvent {
    pub fn summary(&self) -> (s: String)
        ensures
            s@ == event_summary(*self),
    {
        let mut parts: Vec<String> = Vec::new();
        parts.push(self.status.label());
        let ghost a = views(parts@);
        if let Some(starts_at) = &self.starts_at {
            parts.push(owned(starts_at.as_str()));
        }
        let ghost b = views(parts@);
        match &self.location {
            EventLocation::Channel(_) => parts.push(owned("in a channel here")),
            EventLocation::External(place) => {
                if place.unicode_len() > 0 {
                    parts.push(owned(place.as_str()));
                } else {
                    parts.push(owned("no location given"));
                }
            },
            EventLocation::Unknown => parts.push(owned("no location given")),
        }
        let ghost c = views(parts@);
        if let Some(interested) = self.interested {
            parts.push(concat2(decimal_string(interested).as_str(), " interested"));
        }
        proof {
            assert(a =~= seq![event_status_label(self.status)]);
            assert(b =~= match self.starts_at {
                Some(s) => a.push(s@),
                None => a,
            });
            assert(c =~= match self.location {
                EventLocation::Channel(_) => b.push("in a channel here"@),
                EventLocation::External(p) => if p@.len() > 0 { b.push(p@) } else { b.push("no location given"@) },
                EventLocation::Unknown => b.push("no location given"@),
            });
            assert(views(parts@) =~= match self.interested {
                Some(n) => c.push(decimal(n as nat) + " interested"@),
                None => c,
            });
        }
        join(&parts, " - ")
    }
}

#[derive(Clone, Debug, PartialEq, Eq)]
pub struct GuildTemplate {
    pub code: String,
    pub name: String,
    pub description: Option<String>,
    pub usage_count: u64,
    /// The template no longer matches its server.
    pub is_dirty: bool,
}

pub open spec fn template_summary(t: GuildTemplate) -> Seq<char> {
    let a: Seq<Seq<char>> = seq!["used "@ + decimal(t.usage_count as nat) + " times"@];
    let b = if t.is_dirty { a.push("out of date - sync to update"@) } else { a };
    let c = match t.description {
        Some(d) => if d@.len() > 0 { b.push(d@) } else { b },
        None => b,
    };
    join_seq(c, " - "@)
}

impl GuildTemplate {
    pub fn summary(&self) -> (s: String)
        ensures
            s@ == template_summary(*self),
    {
        let mut parts: Vec<String> = Vec::new();
        parts.push(concat3("used ", decimal_string(self.usage_count).as_str(), " times"));
        let ghost a = views(parts@);
        if self.is_dirty {
            parts.push(owned("out of date - sync to update"));
        }
        let ghost b = views(parts@);
        if let Some(description) = &self.description {
            if description.unicode_len() > 0 {
                parts.push(owned(description.as_str()));
            }
        }
        proof {
            assert(a =~= seq!["used "@ + decimal(self.usage_count as nat) + " times"@]);
            assert(b =~= if self.is_dirty { a.push("out of date - sync to update"@) } else { a });
            assert(views(parts@) =~= match self.description {
                Some(d) => if d@.len() > 0 { b.push(d@) } else { b },
                None => b,
            });
        }
        join(&parts, " - ")
    }

    /// The link people share.
    pub fn url(&self) -> (u: String)
        ensures
            u@ == "https://discord.new/"@ + self.code@,
    {
        concat2("https://discord.new/", self.code.as_str())
    }
}

/// A scheduled event as Discord sends it.
pub struct EventBody {
    pub id: Option<String>,
    pub name: Option<String>,
    pub description: Option<String>,
    pub scheduled_start_time: Option<String>,
    pub status: u64,
    pub channel_id: Option<String>,
    pub location: Option<String>,
    pub user_count: Option<u64>,
}

pub open spec fn opt_parse(o: Option<String>) -> Option<u64> {
    match o {
        Some(s) => parse_u64_seq(s@),
        None => None,
    }
}

/// Where an event described by a body happens: its channel when it names
/// one, else its external location, else unknown.
pub open spec fn event_location_of(b: EventBody, loc: EventLocation) -> bool {
    match opt_parse(b.channel_id) {
        Some(c) => loc matches EventLocation::Channel(id) && id@ == c,
        None => match b.location {
            Some(p) => loc matches EventLocation::External(q) && q@ == p@,
            None => loc == EventLocation::Unknown,
        },
    }
}

/// The event a body describes; one whose id is missing or not a number has
/// nothing to open or cancel, and gives none. A channel id of zero is no
/// snowflake, and is refused before this is reached.
pub fn event_from_body(body: EventBody) -> (e: Option<ScheduledEvent>)
    requires
        opt_parse(body.channel_id) != Some(0u64),
    ensures
        e is Some <==> opt_parse(body.id) is Some,
        e matches Some(ev) ==> {
            &&& Some(ev.id) == opt_parse(body.id)
            &&& ev.name@ == match body.name {
                Some(n) => n@,
                None => Seq::empty(),
            }
            &&& ev.description.deep_view() == match body.description {
                Some(d) => if d@.len() > 0 { Some(d@) } else { None },
                None => None,
            }
            &&& ev.starts_at == body.scheduled_start_time
            &&& ev.status == event_status_of(body.status)
            &&& event_location_of(body, ev.location)
            &&& ev.interested == body.user_count
        },
{
    let id = match &body.id {
        Some(s) => match parse_u64(s.as_str()) {
            Some(v) => v,
            None => return None,
        },
        None => return None,
    };
    let channel = match &body.channel_id {
        Some(s) => parse_u64(s.as_str()),
        None => None,
    };
    let location = match channel {
        Some(c) => EventLocation::Channel(Id::new(c)),
        None => match body.location {
            Some(p) => EventLocation::External(p),
            None => EventLocation::Unknown,
        },
    };
    let description = match body.description {
        Some(d) => if d.unicode_len() > 0 { Some(d) } else { None },
        None => None,
    };
    Some(ScheduledEvent {
        id,
        name: match body.name {
            Some(n) => n,
            None => String::new(),
        },
        description,
        starts_at: body.scheduled_start_time,
        status: EventStatus::from_code(body.status),
        location,
        interested: body.user_count,
    })
}

/// A server template as Discord sends it.
pub struct TemplateBody {
    pub code: Option<String>,
    pub name: Option<String>,
    pub description: Option<String>,
    pub usage_count: u64,
    pub is_dirty: Option<bool>,
}

/// The template a body describes; without a code there is no link and
/// nothing to sync, so none. Silence about drift is not drift.
pub fn template_from_body(body: TemplateBody) -> (t: Option<GuildTemplate>)
    ensures
        t is Some <==> body.code is Some,
        t matches Some(t) ==> {
            &&& t.code@ == body.code.unwrap()@
            &&& t.name@ == match body.name {
                Some(n) => n@,
                None => Seq::empty(),
            }
            &&& t.description.deep_view() == match body.description {
                Some(d) => if d@.len() > 0 { Some(d@) } else { None },
                None => None,
            }
            &&& t.usage_count == body.usage_count
            &&& t.is_dirty == (body.is_dirty == Some(true))
        },
{
    let code = match body.code {
        Some(c) => c,
        None => return None,
    };
    let description = match body.description {
        Some(d) => if d.unicode_len() > 0 { Some(d) } else { None },
        None => None,
    };
    Some(GuildTemplate {
        code,
        name: match body.name {
            Some(n) => n,
            None => String::new(),
        },
        description,
        usage_count: body.usage_count,
        is_dirty: match body.is_dirty {
            Some(d) => d,
            None => false,
        },
    })
}

} // verus!
