//! Images sent inline, as `data:` URIs.
use vstd::prelude::*;

use crate::text::{concat3, push_str};

verus! {

/// The character of a six-bit value in the standard base64 alphabet.
pub open spec fn base64_digit(v: int) -> char {
    if v < 26 {
        (65 + v) as char
    } else if v < 52 {
        (97 + v - 26) as char
    } else if v < 62 {
        (48 + v - 52) as char
    } else if v == 62 {
        '+'
    } else {
        '/'
    }
}

/// Standard base64 (RFC 4648, padded): each three bytes become four
/// characters of six bits each, and a last group of one or two bytes is
/// padded with `=` to four.
pub open spec fn base64_standard(b: Seq<u8>) -> Seq<char>
    decreases b.len(),
{
    let b0 = if b.len() > 0 { b[0] as int } else { 0 };
    let b1 = if b.len() > 1 { b[1] as int } else { 0 };
    let b2 = if b.len() > 2 { b[2] as int } else { 0 };
    let first = base64_digit(b0 / 4);
    let second = base64_digit((b0 % 4) * 16 + b1 / 16);
    if b.len() == 0 {
        Seq::empty()
    } else if b.len() == 1 {
        seq![first, second, '=', '=']
    } else if b.len() == 2 {
        seq![first, second, base64_digit((b1 % 16) * 4), '=']
    } else {
        seq![first, second, base64_digit((b1 % 16) * 4 + b2 / 64), base64_digit(b2 % 64)] + base64_standard(b.skip(3))
    }
}

/// `base64::Engine::encode` with `general_purpose::STANDARD`: the result is
/// the padded standard base64 of the bytes, as RFC 4648 defines it.
#[verifier::external_body]
fn encode_base64(bytes: &[u8]) -> (s: String)
    ensures
        s@ == base64_standard(bytes@),
{
    base64::Engine::encode(&base64::engine::general_purpose::STANDARD, bytes)
}

/// An image as a `data:` URI.
pub open spec fn data_uri(content_type: Seq<char>, bytes: Seq<u8>) -> Seq<char> {
    "data:"@ + content_type + ";base64,"@ + base64_standard(bytes)
}

pub fn data_uri_string(content_type: &str, bytes: &[u8]) -> (s: String)
    ensures
        s@ == data_uri(content_type@, bytes@),
{
    let mut uri = concat3("data:", content_type, ";base64,");
    push_str(&mut uri, encode_base64(bytes).as_str());
    uri
}

} // verus!
