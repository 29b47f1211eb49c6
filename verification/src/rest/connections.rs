//! Linked accounts: listing, changing what a connection shows, removing one.
use vstd::prelude::*;

use crate::text::{join, join_seq, owned, views};

verus! {

/// Who can see a connection on a profile.
#[derive(Clone, Copy, Debug, PartialEq, Eq, Structural)]
pub enum ConnectionVisibility {
    /// Only you.
    Hidden,
    Everyone,
}

pub open spec fn visibility_of(code: u64) -> ConnectionVisibility {
    if code == 1 { ConnectionVisibility::Everyone } else { ConnectionVisibility::Hidden }
}

pub open spec fn visibility_code(v: ConnectionVisibility) -> u8 {
    match v {
        ConnectionVisibility::Hidden => 0,
        ConnectionVisibility::Everyone => 1,
    }
}

pub open spec fn visibility_label(v: ConnectionVisibility) -> Seq<char> {
    match v {
        ConnectionVisibility::Hidden => "Only you"@,
        ConnectionVisibility::Everyone => "Everyone"@,
    }
}

pub open spec fn visibility_toggled(v: ConnectionVisibility) -> ConnectionVisibility {
    match v {
        ConnectionVisibility::Hidden => ConnectionVisibility::Everyone,
        ConnectionVisibility::Everyone => ConnectionVisibility::Hidden,
    }
}

impl ConnectionVisibility {
    /// The visibility for Discord's code; anything unknown reads as hidden.
    pub fn from_code(code: u64) -> (v: Self)
        ensures
            v == visibility_of(code),
    {
        if code == 1 { ConnectionVisibility::Everyone } else { ConnectionVisibility::Hidden }
    }

    pub fn code(self) -> (c: u8)
        ensures
            c == visibility_code(self),
    {
        match self {
            ConnectionVisibility::Hidden => 0,
            ConnectionVisibility::Everyone => 1,
        }
    }

    pub fn label(self) -> (s: &'static str)
        ensures
            s@ == visibility_label(self),
    {
        match self {
            ConnectionVisibility::Hidden => "Only you",
            ConnectionVisibility::Everyone => "Everyone",
        }
    }

    pub fn toggled(self) -> (v: Self)
        ensures
            v == visibility_toggled(self),
    {
        match self {
            ConnectionVisibility::Hidden => ConnectionVisibility::Everyone,
            ConnectionVisibility::Everyone => ConnectionVisibility::Hidden,
        }
    }
}

/// Law: a visibility reads back from its code as itself, and toggling
/// twice changes nothing.
pub proof fn law_visibility_round_trips(v: ConnectionVisibility)
    ensures
        visibility_of(visibility_code(v) as u64) == v,
        visibility_toggled(visibility_toggled(v)) == v,
        visibility_toggled(v) != v,
{
}

/// One linked account.
#[derive(Clone, Debug, PartialEq, Eq)]
pub struct Connection {
    pub id: String,
    /// Discord's own name for the service: `spotify`, `github`, `steam`.
    pub kind: String,
    /// The username on that service.
    pub name: String,
    /// An unverified connection is kept by Discord but not shown on a
    /// profile.
    pub verified: bool,
    /// Whether what you do there appears in your presence.
    pub show_activity: bool,
    pub visibility: ConnectionVisibility,
}

/// The visibility, then "unverified" and "shows activity" as they apply,
/// joined by " - ".
pub open spec fn connection_summary(c: Connection) -> Seq<char> {
    let a: Seq<Seq<char>> = seq![visibility_label(c.visibility)];
    let b = if !c.verified { a.push("unverified"@) } else { a };
    let d = if c.show_activity { b.push("shows activity"@) } else { b };
    join_seq(d, " - "@)
}

impl Connection {
    /// How the row reads.
    pub fn summary(&self) -> (s: String)
        ensures
            s@ == connection_summary(*self),
    {
        let mut parts: Vec<String> = Vec::new();
        parts.push(owned(self.visibility.label()));
        if !self.verified {
            parts.push(owned("unverified"));
        }
        if self.show_activity {
            parts.push(owned("shows activity"));
        }
        let ghost a: Seq<Seq<char>> = seq![visibility_label(self.visibility)];
        let ghost b = if !self.verified { a.push("unverified"@) } else { a };
        let ghost d = if self.show_activity { b.push("shows activity"@) } else { b };
        assert(views(parts@) =~= d);
        join(&parts, " - ")
    }
}

/// One linked account as Discord sends it.
pub struct ConnectionBody {
    pub id: Option<String>,
    pub kind: Option<String>,
    pub name: Option<String>,
    pub verified: bool,
    pub show_activity: bool,
    pub visibility: u64,
}

/// The connection a body describes: one without both an id and a type has
/// nothing to address and is dropped.
pub open spec fn connection_of(b: ConnectionBody) -> Option<(Seq<char>, Seq<char>, Seq<char>, bool, bool, ConnectionVisibility)> {
    if b.id is Some && b.kind is Some {
        Some((
            b.id.unwrap()@,
            b.kind.unwrap()@,
            match b.name {
                Some(n) => n@,
                None => Seq::empty(),
            },
            b.verified,
            b.show_activity,
            visibility_of(b.visibility),
        ))
    } else {
        None
    }
}

pub open spec fn connection_view(c: Connection) -> (Seq<char>, Seq<char>, Seq<char>, bool, bool, ConnectionVisibility) {
    (c.id@, c.kind@, c.name@, c.verified, c.show_activity, c.visibility)
}

pub fn connection_from_body(body: &ConnectionBody) -> (c: Option<Connection>)
    ensures
        match c {
            Some(c) => connection_of(*body) == Some(connection_view(c)),
            None => connection_of(*body) is None,
        },
{
    match (&body.id, &body.kind) {
        (Some(id), Some(kind)) => Some(Connection {
            id: owned(id.as_str()),
            kind: owned(kind.as_str()),
            name: match &body.name {
                Some(n) => owned(n.as_str()),
                None => String::new(),
            },
            verified: body.verified,
            show_activity: body.show_activity,
            visibility: ConnectionVisibility::from_code(body.visibility),
        }),
        _ => None,
    }
}

} // verus!
