//! Reading dispatches: the fields a dispatch carries, as Discord writes
//! them, turned into the values the client works with.
use vstd::prelude::*;

use crate::gateway::frame::{bool_field, str_field};
use crate::gateway::session::opt_view;
use crate::ids::Id;
use crate::json::{field, Json, JsonValue};
use crate::text::{owned, parse_u64_seq};

pub mod streams;
pub mod voice;

verus! {

/// A snowflake as Discord writes it: a decimal string, or a number. Zero
/// and anything that is not a `u64` are no id.
pub open spec fn snowflake_of(j: Json) -> Option<u64> {
    match j {
        Json::Str(s) => match parse_u64_seq(s) {
            Some(v) => if v != 0 { Some(v) } else { None },
            None => None,
        },
        Json::Num(n) => if 0 < n <= u64::MAX { Some(n as u64) } else { None },
        _ => None,
    }
}

/// The id an object holds under `k`.
pub open spec fn id_field(j: Json, k: Seq<char>) -> Option<u64> {
    match field(j, k) {
        Some(v) => snowflake_of(v),
        None => None,
    }
}

/// The text an object holds under `k`, where it is a non-empty string.
pub open spec fn text_field(j: Json, k: Seq<char>) -> Option<Seq<char>> {
    match str_field(j, k) {
        Some(s) => if s.len() > 0 { Some(s) } else { None },
        None => None,
    }
}

/// A flag an object holds under `k`; absent or not a boolean reads false.
pub open spec fn flag_field(j: Json, k: Seq<char>) -> bool {
    bool_field(j, k) == Some(true)
}

/// The id a value holds.
pub fn parse_id<T>(v: &JsonValue) -> (r: Option<Id<T>>)
    ensures
        match r {
            Some(i) => snowflake_of(v.model()) == Some(i@),
            None => snowflake_of(v.model()) is None,
        },
{
    match v {
        JsonValue::Str(s) => Id::from_wire_str(s.as_str()),
        _ => match v.as_u64() {
            Some(n) => Id::new_checked(n),
            None => None,
        },
    }
}

/// The id an object holds under `key`.
pub fn id_at<T>(v: &JsonValue, key: &str) -> (r: Option<Id<T>>)
    ensures
        match r {
            Some(i) => id_field(v.model(), key@) == Some(i@),
            None => id_field(v.model(), key@) is None,
        },
{
    match v.get(key) {
        Some(x) => parse_id(x),
        None => None,
    }
}

/// The non-empty text an object holds under `key`.
pub fn text_at(v: &JsonValue, key: &str) -> (r: Option<String>)
    ensures
        opt_view(r) == text_field(v.model(), key@),
{
    match v.get(key) {
        Some(x) => match x.as_str() {
            Some(t) => if t.unicode_len() > 0 { Some(owned(t)) } else { None },
            None => None,
        },
        None => None,
    }
}

/// A flag an object holds under `key`, false when absent.
pub fn flag_at(v: &JsonValue, key: &str) -> (b: bool)
    ensures
        b == flag_field(v.model(), key@),
{
    match v.get(key) {
        Some(x) => match x.as_bool() {
            Some(b) => b,
            None => false,
        },
        None => false,
    }
}

} // verus!
