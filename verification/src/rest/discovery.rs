//! Server discovery: finding a server without an invite.
use vstd::prelude::*;

use crate::ids::marker::GuildMarker;
use crate::ids::Id;
use crate::text::{decimal, decimal_string, join, join_seq, owned, parse_u64, parse_u64_seq, push_str, views};
use crate::totp::{percent_encode, percent_encoded};
use vstd::string::StringSliceAdditionalSpecFns;

verus! {

/// Discord's cap on one page of results.
pub const MAX_DISCOVERY_LIMIT: u16 = 48;

/// One server as discovery lists it.
#[derive(Clone, Debug, PartialEq, Eq)]
pub struct DiscoverableGuild {
    pub id: Id<GuildMarker>,
    pub name: String,
    pub description: Option<String>,
    /// Roughly how many people are in it, by Discord's own admission.
    pub approximate_member_count: Option<u64>,
    pub approximate_presence_count: Option<u64>,
    /// The server's vanity invite, when it has one: the only way to join it
    /// from here.
    pub vanity_url_code: Option<String>,
}

/// The line under a server's name: its counts (or that they are unknown),
/// why it cannot be joined when it cannot, and its description.
pub open spec fn discoverable_summary(g: DiscoverableGuild) -> Seq<char> {
    let counts = match (g.approximate_member_count, g.approximate_presence_count) {
        (Some(m), Some(o)) => "about "@ + decimal(m as nat) + " members, "@ + decimal(o as nat) + " online"@,
        (Some(m), None) => "about "@ + decimal(m as nat) + " members"@,
        (None, _) => "member count unknown"@,
    };
    let a: Seq<Seq<char>> = seq![counts];
    let b = if g.vanity_url_code is None { a.push("no invite link - open it in a browser to join"@) } else { a };
    let c = match g.description {
        Some(d) => if d@.len() > 0 { b.push(d@) } else { b },
        None => b,
    };
    join_seq(c, " - "@)
}

impl DiscoverableGuild {
    /// Whether this server can be joined from the list.
    pub fn is_joinable(&self) -> (b: bool)
        ensures
            b == self.vanity_url_code is Some,
    {
        self.vanity_url_code.is_some()
    }

    pub fn summary(&self) -> (s: String)
        ensures
            s@ == discoverable_summary(*self),
    {
        let counts = match (self.approximate_member_count, self.approximate_presence_count) {
            (Some(members), Some(online)) => {
                let mut c = owned("about ");
                push_str(&mut c, decimal_string(members).as_str());
                push_str(&mut c, " members, ");
                push_str(&mut c, decimal_string(online).as_str());
                push_str(&mut c, " online");
                c
            },
            (Some(members), None) => {
                let mut c = owned("about ");
                push_str(&mut c, decimal_string(members).as_str());
                push_str(&mut c, " members");
                c
            },
            (None, _) => owned("member count unknown"),
        };
        let mut parts: Vec<String> = Vec::new();
        parts.push(counts);
        if !self.is_joinable() {
            parts.push(owned("no invite link - open it in a browser to join"));
        }
        if let Some(description) = &self.description {
            if description.unicode_len() > 0 {
                parts.push(owned(description.as_str()));
            }
        }
        assert(views(parts@) =~= {
            let a: Seq<Seq<char>> = seq![parts@[0]@];
            let b = if self.vanity_url_code is None { a.push("no invite link - open it in a browser to join"@) } else { a };
            match self.description {
                Some(d) => if d@.len() > 0 { b.push(d@) } else { b },
                None => b,
            }
        });
        join(&parts, " - ")
    }
}

/// A search query percent-encoded for a URL: RFC 3986's unreserved bytes as
/// themselves, every other byte as `%XX`.
pub fn urlencoding(value: &str) -> (s: String)
    ensures
        s@ == percent_encoded(value.spec_bytes()),
{
    percent_encode(value)
}

/// One server as Discord's discovery sends it.
pub struct GuildBody {
    pub id: Option<String>,
    pub name: Option<String>,
    pub description: Option<String>,
    pub approximate_member_count: Option<u64>,
    pub approximate_presence_count: Option<u64>,
    pub vanity_url_code: Option<String>,
}

pub open spec fn nonempty(o: Option<String>) -> Option<Seq<char>> {
    match o {
        Some(s) => if s@.len() > 0 { Some(s@) } else { None },
        None => None,
    }
}

pub open spec fn body_id(b: GuildBody) -> Option<u64> {
    match b.id {
        Some(s) => parse_u64_seq(s@),
        None => None,
    }
}

/// What a listed server looks like: name, description and vanity code (the
/// empty ones as absent) and the two counts.
pub open spec fn guild_view(g: DiscoverableGuild) -> (u64, Seq<char>, Option<Seq<char>>, Option<u64>, Option<u64>, Option<Seq<char>>) {
    (g.id@, g.name@, g.description.deep_view(), g.approximate_member_count, g.approximate_presence_count, g.vanity_url_code.deep_view())
}

pub open spec fn guild_of(b: GuildBody) -> (u64, Seq<char>, Option<Seq<char>>, Option<u64>, Option<u64>, Option<Seq<char>>) {
    (
        body_id(b).unwrap(),
        match b.name {
            Some(n) => n@,
            None => Seq::empty(),
        },
        nonempty(b.description),
        b.approximate_member_count,
        b.approximate_presence_count,
        nonempty(b.vanity_url_code),
    )
}

/// The servers the bodies describe, in order; one without a numeric id has
/// nothing to join and is dropped.
pub open spec fn guilds_of(bodies: Seq<GuildBody>) -> Seq<(u64, Seq<char>, Option<Seq<char>>, Option<u64>, Option<u64>, Option<Seq<char>>)>
    decreases bodies.len(),
{
    if bodies.len() == 0 {
        Seq::empty()
    } else {
        let rest = guilds_of(bodies.drop_last());
        if body_id(bodies.last()) is Some {
            rest.push(guild_of(bodies.last()))
        } else {
            rest
        }
    }
}

fn nonempty_copy(o: &Option<String>) -> (r: Option<String>)
    ensures
        r.deep_view() == nonempty(*o),
{
    match o {
        Some(s) => if s.unicode_len() > 0 { Some(owned(s.as_str())) } else { None },
        None => None,
    }
}

/// The servers Discord listed. An id of zero is no snowflake, and is
/// refused before this is reached.
pub fn to_guilds(bodies: Vec<GuildBody>) -> (guilds: Vec<DiscoverableGuild>)
    requires
        forall|i: int| 0 <= i < bodies@.len() ==> body_id(#[trigger] bodies@[i]) != Some(0u64),
    ensures
        guilds@.map_values(|g: DiscoverableGuild| guild_view(g)) == guilds_of(bodies@),
{
    let mut guilds: Vec<DiscoverableGuild> = Vec::new();
    let n = bodies.len();
    let mut i: usize = 0;
    while i < n
        invariant
            n == bodies@.len(),
            i <= n,
            forall|k: int| 0 <= k < bodies@.len() ==> body_id(#[trigger] bodies@[k]) != Some(0u64),
            guilds@.map_values(|g: DiscoverableGuild| guild_view(g)) == guilds_of(bodies@.take(i as int)),
        decreases n - i,
    {
        proof {
            assert(bodies@.take(i + 1).drop_last() =~= bodies@.take(i as int));
            assert(bodies@.take(i + 1).last() == bodies@[i as int]);
        }
        let body = &bodies[i];
        let id = match &body.id {
            Some(s) => parse_u64(s.as_str()),
            None => None,
        };
        if let Some(id) = id {
            assert(body_id(bodies@[i as int]) == Some(id));
            let g = DiscoverableGuild {
                id: Id::new(id),
                name: match &body.name {
                    Some(n) => owned(n.as_str()),
                    None => String::new(),
                },
                description: nonempty_copy(&body.description),
                approximate_member_count: body.approximate_member_count,
                approximate_presence_count: body.approximate_presence_count,
                vanity_url_code: nonempty_copy(&body.vanity_url_code),
            };
            guilds.push(g);
        }
        assert(guilds@.map_values(|g: DiscoverableGuild| guild_view(g)) =~= guilds_of(bodies@.take(i + 1)));
        i = i + 1;
    }
    assert(bodies@.take(n as int) =~= bodies@);
    guilds
}

} // verus!
