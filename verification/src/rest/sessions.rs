//! Active sessions and authorised applications: what else has access to
//! this account.
use vstd::prelude::*;

use crate::text::{concat2, join, join_seq, owned, same_text, views};

verus! {

#[derive(Clone, Debug, PartialEq, Eq)]
pub struct AuthSession {
    pub id_hash: String,
    pub os: String,
    pub platform: String,
    pub location: Option<String>,
    pub last_used: Option<String>,
    /// The session doing the asking.
    pub current: bool,
}

/// "this session" when it is, where (or "location unknown"), the OS when
/// known, and when it was last used.
pub open spec fn session_summary(s: AuthSession) -> Seq<char> {
    let a: Seq<Seq<char>> = if s.current { seq!["this session"@] } else { Seq::empty() };
    let b = match s.location {
        Some(l) => a.push(l@),
        None => a.push("location unknown"@),
    };
    let c = if s.os@.len() > 0 { b.push(s.os@) } else { b };
    let d = match s.last_used {
        Some(t) => c.push("last used "@ + t@),
        None => c,
    };
    join_seq(d, " - "@)
}

impl AuthSession {
    pub fn summary(&self) -> (s: String)
        ensures
            s@ == session_summary(*self),
    {
        let mut parts: Vec<String> = Vec::new();
        if self.current {
            parts.push(owned("this session"));
        }
        let ghost a = views(parts@);
        match &self.location {
            Some(location) => parts.push(owned(location.as_str())),
            None => parts.push(owned("location unknown")),
        }
        let ghost b = views(parts@);
        if self.os.unicode_len() > 0 {
            parts.push(owned(self.os.as_str()));
        }
        let ghost c = views(parts@);
        if let Some(last_used) = &self.last_used {
            parts.push(concat2("last used ", last_used.as_str()));
        }
        proof {
            assert(a =~= if self.current { seq!["this session"@] } else { Seq::<Seq<char>>::empty() });
            assert(b =~= match self.location {
                Some(l) => a.push(l@),
                None => a.push("location unknown"@),
            });
            assert(c =~= if self.os@.len() > 0 { b.push(self.os@) } else { b });
            assert(views(parts@) =~= match self.last_used {
                Some(t) => c.push("last used "@ + t@),
                None => c,
            });
        }
        join(&parts, " - ")
    }
}

#[derive(Clone, Debug, PartialEq, Eq)]
pub struct AuthorisedApp {
    pub id: String,
    pub name: String,
    pub scopes: Vec<String>,
}

impl AuthorisedApp {
    /// Every scope granted, or "no permissions granted" for none.
    pub fn summary(&self) -> (s: String)
        ensures
            s@ == if self.scopes@.len() == 0 {
                "no permissions granted"@
            } else {
                join_seq(views(self.scopes@), ", "@)
            },
    {
        if self.scopes.len() == 0 {
            return owned("no permissions granted");
        }
        join(&self.scopes, ", ")
    }
}

/// One session as Discord sends it, its client info flattened.
pub struct SessionBody {
    pub id_hash: Option<String>,
    pub approx_last_used_time: Option<String>,
    pub os: Option<String>,
    pub platform: Option<String>,
    pub location: Option<String>,
}

pub open spec fn nonempty_text(o: Option<String>) -> Option<Seq<char>> {
    match o {
        Some(s) => if s@.len() > 0 { Some(s@) } else { None },
        None => None,
    }
}

pub open spec fn text_or_empty(o: Option<String>) -> Seq<char> {
    match o {
        Some(s) => s@,
        None => Seq::empty(),
    }
}

/// The session a body describes: one without a hash cannot be revoked and
/// gives none; empty times and places are none; it is the current one when
/// its hash is the asking session's.
pub fn session_from_body(body: SessionBody, current_session_id_hash: Option<&str>) -> (s: Option<AuthSession>)
    ensures
        s is Some <==> body.id_hash is Some,
        s matches Some(s) ==> {
            &&& s.id_hash@ == body.id_hash.unwrap()@
            &&& s.os@ == text_or_empty(body.os)
            &&& s.platform@ == text_or_empty(body.platform)
            &&& s.location.deep_view() == nonempty_text(body.location)
            &&& s.last_used.deep_view() == nonempty_text(body.approx_last_used_time)
            &&& s.current == (current_session_id_hash matches Some(c) && c@ == body.id_hash.unwrap()@)
        },
{
    let id_hash = match body.id_hash {
        Some(h) => h,
        None => return None,
    };
    let current = match current_session_id_hash {
        Some(c) => same_text(c, id_hash.as_str()),
        None => false,
    };
    let last_used = match body.approx_last_used_time {
        Some(t) => if t.unicode_len() > 0 { Some(t) } else { None },
        None => None,
    };
    let location = match body.location {
        Some(l) => if l.unicode_len() > 0 { Some(l) } else { None },
        None => None,
    };
    Some(AuthSession {
        id_hash,
        os: match body.os {
            Some(o) => o,
            None => String::new(),
        },
        platform: match body.platform {
            Some(p) => p,
            None => String::new(),
        },
        location,
        last_used,
        current,
    })
}

/// One authorised application as Discord sends it.
pub struct TokenBody {
    pub id: Option<String>,
    pub scopes: Vec<String>,
    pub application_name: Option<String>,
}

/// The app a token describes: one without an id gives none; an unnamed app
/// still has access, so it is named "Unnamed application" rather than
/// dropped.
pub fn app_from_body(body: TokenBody) -> (a: Option<AuthorisedApp>)
    ensures
        a is Some <==> body.id is Some,
        a matches Some(a) ==> {
            &&& a.id@ == body.id.unwrap()@
            &&& a.name@ == if text_or_empty(body.application_name).len() > 0 {
                text_or_empty(body.application_name)
            } else {
                "Unnamed application"@
            }
            &&& a.scopes@ == body.scopes@
        },
{
    let id = match body.id {
        Some(i) => i,
        None => return None,
    };
    let name = match body.application_name {
        Some(n) => n,
        None => String::new(),
    };
    let name = if name.unicode_len() == 0 { owned("Unnamed application") } else { name };
    Some(AuthorisedApp { id, name, scopes: body.scopes })
}

} // verus!
