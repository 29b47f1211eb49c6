//! Invite resolution and acceptance.
use vstd::prelude::*;

use crate::ids::marker::GuildMarker;
use crate::ids::Id;
use crate::text::{
    after_last, after_last_char, ascii_alphanumeric, contains_char, contains_char_seq, find_char, find_seq, has_prefix,
    is_ascii_alphanumeric, lemma_find, owned, starts_with, trim, trim_end_matches_char, trim_end_matches_seq, trim_seq,
};

verus! {

/// What an invite leads to, as shown before accepting it.
#[derive(Clone, Debug, PartialEq, Eq)]
pub struct InvitePreview {
    pub code: String,
    pub guild_id: Option<Id<GuildMarker>>,
    pub guild_name: String,
    pub channel_name: Option<String>,
    pub inviter: Option<String>,
    pub member_count: Option<u64>,
    pub online_count: Option<u64>,
    pub already_joined: bool,
}

/// `s` with every leading copy of `p` removed, as `trim_start_matches` does.
pub open spec fn strip_all_prefix(s: Seq<char>, p: Seq<char>) -> Seq<char>
    decreases s.len(),
{
    if p.len() > 0 && has_prefix(s, p) {
        strip_all_prefix(s.skip(p.len() as int), p)
    } else {
        s
    }
}

/// `s` up to its first `a` or `b`.
pub open spec fn take_until2(s: Seq<char>, a: char, b: char) -> Seq<char>
    decreases s.len(),
{
    if s.len() == 0 || s[0] == a || s[0] == b {
        Seq::empty()
    } else {
        seq![s[0]] + take_until2(s.drop_first(), a, b)
    }
}

/// The invite code in what a user pasted: a bare code, or a link with or
/// without its scheme, `/invite/` path, trailing slashes, query or fragment.
/// The last path segment after a host (a first segment with a dot in it) is
/// the code; it must be non-empty ASCII letters, digits and dashes.
pub open spec fn invite_code_of(input: Seq<char>) -> Option<Seq<char>> {
    let trimmed = trim_seq(input);
    if trimmed.len() == 0 {
        None
    } else {
        let without_scheme = strip_all_prefix(strip_all_prefix(trimmed, "https://"@), "http://"@);
        let path = trim_end_matches_seq(take_until2(without_scheme, '?', '#'), '/');
        let candidate = match find_seq(path, '/') {
            Some(i) => if contains_char_seq(path.take(i), '.') { after_last(path.skip(i + 1), '/') } else { path },
            None => path,
        };
        if is_code(candidate) {
            Some(candidate)
        } else {
            None
        }
    }
}

pub open spec fn is_invite_char(c: char) -> bool {
    is_ascii_alphanumeric(c) || c == '-'
}

/// Invite codes are non-empty ASCII letters, digits and dashes.
pub open spec fn is_code(c: Seq<char>) -> bool {
    c.len() > 0 && forall|k: int| 0 <= k < c.len() ==> is_invite_char(#[trigger] c[k])
}

fn strip_all<'a>(s: &'a str, p: &str) -> (r: &'a str)
    requires
        p@.len() > 0,
    ensures
        r@ == strip_all_prefix(s@, p@),
{
    let mut cur = s;
    while starts_with(cur, p)
        invariant
            p@.len() > 0,
            strip_all_prefix(cur@, p@) == strip_all_prefix(s@, p@),
        decreases cur@.len(),
    {
        let n = cur.unicode_len();
        let m = p.unicode_len();
        let next = cur.substring_char(m, n);
        assert(next@ =~= cur@.skip(m as int));
        cur = next;
    }
    cur
}

proof fn lemma_take_until2(s: Seq<char>, a: char, b: char, i: int)
    requires
        0 <= i <= s.len(),
        forall|k: int| 0 <= k < i ==> s[k] != a && s[k] != b,
        i == s.len() || s[i] == a || s[i] == b,
    ensures
        take_until2(s, a, b) == s.take(i),
    decreases i,
{
    if i > 0 {
        lemma_take_until2(s.drop_first(), a, b, i - 1);
        assert(seq![s[0]] + s.drop_first().take(i - 1) =~= s.take(i));
    } else {
        assert(s.take(0) =~= Seq::<char>::empty());
    }
}

fn before_stop<'a>(s: &'a str, a: char, b: char) -> (r: &'a str)
    ensures
        r@ == take_until2(s@, a, b),
{
    let n = s.unicode_len();
    let mut i: usize = 0;
    while i < n
        invariant
            n == s@.len(),
            i <= n,
            forall|k: int| 0 <= k < i ==> s@[k] != a && s@[k] != b,
        ensures
            i <= n,
            forall|k: int| 0 <= k < i ==> s@[k] != a && s@[k] != b,
            i == n || s@[i as int] == a || s@[i as int] == b,
        decreases n - i,
    {
        let c = s.get_char(i);
        if c == a || c == b {
            break;
        }
        i = i + 1;
    }
    proof {
        lemma_take_until2(s@, a, b, i as int);
    }
    let r = s.substring_char(0, i);
    assert(r@ =~= s@.take(i as int));
    r
}

pub fn invite_code_from(input: &str) -> (code: Option<String>)
    ensures
        code.deep_view() == invite_code_of(input@),
{
    let trimmed = trim(input);
    if trimmed.unicode_len() == 0 {
        return None;
    }
    proof {
        reveal_strlit("https://");
        reveal_strlit("http://");
    }
    let without_scheme = strip_all(strip_all(trimmed, "https://"), "http://");
    let path = trim_end_matches_char(before_stop(without_scheme, '?', '#'), '/');
    let candidate = match find_char(path, '/') {
        Some(i) => {
            proof { lemma_find(path@, '/'); }
            let n = path.unicode_len();
            let host = path.substring_char(0, i);
            assert(host@ =~= path@.take(i as int));
            if contains_char(host, '.') {
                let rest = path.substring_char(i + 1, n);
                assert(rest@ =~= path@.skip(i + 1));
                after_last_char(rest, '/')
            } else {
                path
            }
        },
        None => path,
    };
    let ghost trimmed_s = trim_seq(input@);
    let ghost ws = strip_all_prefix(strip_all_prefix(trimmed_s, "https://"@), "http://"@);
    let ghost ps = trim_end_matches_seq(take_until2(ws, '?', '#'), '/');
    let ghost cs = match find_seq(ps, '/') {
        Some(i) => if contains_char_seq(ps.take(i), '.') { after_last(ps.skip(i + 1), '/') } else { ps },
        None => ps,
    };
    assert(ps == path@);
    assert(cs == candidate@);
    if valid_code(candidate) {
        Some(owned(candidate))
    } else {
        None
    }
}

fn valid_code(candidate: &str) -> (b: bool)
    ensures
        b == is_code(candidate@),
{
    let n = candidate.unicode_len();
    if n == 0 {
        return false;
    }
    let mut k: usize = 0;
    while k < n
        invariant
            n == candidate@.len(),
            k <= n,
            forall|j: int| 0 <= j < k ==> is_invite_char(#[trigger] candidate@[j]),
        decreases n - k,
    {
        let c = candidate.get_char(k);
        if !(ascii_alphanumeric(c) || c == '-') {
            assert(!is_invite_char(candidate@[k as int]));
            return false;
        }
        k = k + 1;
    }
    true
}

/// An invite as Discord resolves it, its guild, channel and inviter
/// flattened.
pub struct InviteBody {
    pub code: String,
    pub guild_id: Option<Id<GuildMarker>>,
    pub guild_name: Option<String>,
    pub channel_name: Option<String>,
    pub inviter_username: Option<String>,
    pub inviter_global_name: Option<String>,
    pub approximate_member_count: Option<u64>,
    pub approximate_presence_count: Option<u64>,
}

/// The preview of a resolved invite: a server with no name is "Unknown
/// server"; the inviter by display name, else username.
pub fn preview_from_body(body: InviteBody) -> (p: InvitePreview)
    ensures
        p.code == body.code,
        p.guild_id == body.guild_id,
        p.guild_name@ == match body.guild_name {
            Some(n) => n@,
            None => "Unknown server"@,
        },
        p.channel_name == body.channel_name,
        p.inviter.deep_view() == match body.inviter_global_name {
            Some(g) => Some(g@),
            None => body.inviter_username.deep_view(),
        },
        p.member_count == body.approximate_member_count,
        p.online_count == body.approximate_presence_count,
        !p.already_joined,
{
    InvitePreview {
        code: body.code,
        guild_id: body.guild_id,
        guild_name: match body.guild_name {
            Some(n) => n,
            None => owned("Unknown server"),
        },
        channel_name: body.channel_name,
        inviter: match body.inviter_global_name {
            Some(g) => Some(g),
            None => body.inviter_username,
        },
        member_count: body.approximate_member_count,
        online_count: body.approximate_presence_count,
        already_joined: false,
    }
}

} // verus!
