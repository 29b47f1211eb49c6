//! Friends, friend requests and blocks.
use vstd::prelude::*;

use crate::json::{entries, obj_get, put, str_value, Json, JsonValue};
use crate::text::{
    decimal, decimal_string, find_char, find_seq, lemma_find, owned, trim, trim_seq, trim_start_matches_char,
    trim_start_matches_seq,
};

verus! {

/// Discord's relationship type for a block.
pub const RELATIONSHIP_TYPE_BLOCKED: u8 = 2;

/// What `str::parse::<u16>` accepts: an optional `+`, then digits, for a
/// value that fits.
pub open spec fn parse_u16_seq(s: Seq<char>) -> Option<u16> {
    match crate::text::parse_u64_seq(s) {
        Some(v) => if v <= 0xffff { Some(v as u16) } else { None },
        None => None,
    }
}

/// Who a friend request names, from what was typed: a username, or a
/// legacy `name#1234`, after trimming and dropping leading `@`s. Nothing
/// usable is none: an empty name, or a `#` without a number after it.
pub open spec fn request_target_of(input: Seq<char>) -> Option<(Seq<char>, Option<u16>)> {
    let s = trim_start_matches_seq(trim_seq(input), '@');
    if s.len() == 0 {
        None
    } else {
        match find_seq(s, '#') {
            Some(i) => {
                let name = trim_seq(s.take(i));
                match parse_u16_seq(trim_seq(s.skip(i + 1))) {
                    Some(d) => if name.len() > 0 { Some((name, Some(d))) } else { None },
                    None => None,
                }
            },
            None => Some((s, None)),
        }
    }
}

pub fn friend_request_target(input: &str) -> (t: Option<(String, Option<u16>)>)
    ensures
        match t {
            Some((name, d)) => request_target_of(input@) == Some((name@, d)),
            None => request_target_of(input@) is None,
        },
{
    let s = trim_start_matches_char(trim(input), '@');
    if s.unicode_len() == 0 {
        return None;
    }
    match find_char(s, '#') {
        Some(i) => {
            proof { lemma_find(s@, '#'); }
            let n = s.unicode_len();
            let head = s.substring_char(0, i);
            let tail = s.substring_char(i + 1, n);
            assert(head@ =~= s@.take(i as int));
            assert(tail@ =~= s@.skip(i + 1));
            let name = trim(head);
            let d = match crate::text::parse_u64(trim(tail)) {
                Some(v) => if v <= 0xffff { v as u16 } else { return None },
                None => return None,
            };
            if name.unicode_len() > 0 { Some((owned(name), Some(d))) } else { None }
        },
        None => Some((owned(s), None)),
    }
}

/// The body of a friend request: the username, and the discriminator as a
/// string for a legacy name.
pub fn friend_request_body(username: &str, discriminator: Option<u16>) -> (body: JsonValue)
    ensures
        body.model() is Object,
        forall|k: Seq<char>| #[trigger] obj_get(entries(body.model()), k) == if k == "discriminator"@ && discriminator is Some {
            Some(Json::Str(decimal(discriminator.unwrap() as nat)))
        } else if k == "username"@ {
            Some(Json::Str(username@))
        } else {
            None
        },
{
    let mut fields: Vec<(String, JsonValue)> = Vec::new();
    put(&mut fields, "username", str_value(username));
    if let Some(d) = discriminator {
        put(&mut fields, "discriminator", JsonValue::Str(decimal_string(d as u64)));
    }
    JsonValue::Object(fields)
}

/// The body that blocks someone.
pub fn block_body() -> (body: JsonValue)
    ensures
        body.model() is Object,
        forall|k: Seq<char>| #[trigger] obj_get(entries(body.model()), k) == if k == "type"@ {
            Some(Json::Num(RELATIONSHIP_TYPE_BLOCKED as int))
        } else {
            None
        },
{
    let mut fields: Vec<(String, JsonValue)> = Vec::new();
    put(&mut fields, "type", JsonValue::UInt(RELATIONSHIP_TYPE_BLOCKED as u64));
    JsonValue::Object(fields)
}

} // verus!
