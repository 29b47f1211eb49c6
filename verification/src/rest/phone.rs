//! A phone number as a credential, and SMS two-factor.
use vstd::prelude::*;

use crate::json::{entries, obj_get, put, str_value, Json, JsonValue};
use crate::secret::Secret;
use crate::text::{ascii_digit, char_count, is_ascii_digit, owned, strip_prefix, trim, trim_seq};

verus! {

/// Why a number is being attached, which changes what Discord does after.
#[derive(Clone, Copy, Debug, PartialEq, Eq, Structural)]
pub enum PhoneChangeReason {
    GuildVerification,
    EnableSmsMfa,
}

pub open spec fn reason_text(r: PhoneChangeReason) -> Seq<char> {
    match r {
        PhoneChangeReason::GuildVerification => "guild_phone_required"@,
        PhoneChangeReason::EnableSmsMfa => "mfa_phone_update"@,
    }
}

impl PhoneChangeReason {
    /// The reason as Discord records it.
    pub fn as_str(self) -> (s: &'static str)
        ensures
            s@ == reason_text(self),
    {
        match self {
            PhoneChangeReason::GuildVerification => "guild_phone_required",
            PhoneChangeReason::EnableSmsMfa => "mfa_phone_update",
        }
    }
}

/// What a verified code is exchanged for, and what attaching a number takes.
#[derive(Clone, Debug, PartialEq, Eq)]
pub struct PhoneVerificationToken(String);

impl PhoneVerificationToken {
    pub closed spec fn text(&self) -> Seq<char> {
        self.0@
    }

    pub fn as_str(&self) -> (s: &str)
        ensures
            s@ == self.text(),
    {
        self.0.as_str()
    }
}

/// The token Discord answered a verified code with. An answer without one
/// is an error, not an empty token that would fail a step later.
pub fn token_from_body(token: Option<String>) -> (t: Result<PhoneVerificationToken, &'static str>)
    ensures
        match token {
            Some(s) => t matches Ok(v) && v.text() == s@,
            None => t matches Err(m) && m@ == "Discord accepted the code but returned no verification token"@,
        },
{
    match token {
        Some(s) => Ok(PhoneVerificationToken(s)),
        None => Err("Discord accepted the code but returned no verification token"),
    }
}

pub open spec fn all_digits(s: Seq<char>) -> bool {
    forall|i: int| 0 <= i < s.len() ==> is_ascii_digit(#[trigger] s[i])
}

/// Why a number is not E.164, once trimmed: a `+` and country code, then
/// only digits, four to fifteen of them.
pub open spec fn phone_problem_of(phone: Seq<char>) -> Option<Seq<char>> {
    let t = trim_seq(phone);
    if !(t.len() > 0 && t[0] == '+') {
        Some("must start with + and a country code"@)
    } else if !all_digits(t.skip(1)) {
        Some("may only contain digits after the +"@)
    } else if !(4 <= t.skip(1).len() <= 15) {
        Some("is not a valid length"@)
    } else {
        None
    }
}

fn only_digits(s: &str) -> (b: bool)
    ensures
        b == all_digits(s@),
{
    let n = s.unicode_len();
    let mut i: usize = 0;
    while i < n
        invariant
            n == s@.len(),
            i <= n,
            forall|k: int| 0 <= k < i ==> is_ascii_digit(#[trigger] s@[k]),
        decreases n - i,
    {
        if !ascii_digit(s.get_char(i)) {
            return false;
        }
        i = i + 1;
    }
    true
}

pub fn phone_number_problem(phone: &str) -> (p: Option<&'static str>)
    ensures
        p.deep_view() == phone_problem_of(phone@),
{
    let trimmed = trim(phone);
    proof {
        reveal_strlit("+");
    }
    let digits = match strip_prefix(trimmed, "+") {
        Some(d) => d,
        None => {
            proof {
                if trimmed@.len() > 0 && trimmed@[0] == '+' {
                    assert(trimmed@.take(1) =~= "+"@);
                }
            }
            return Some("must start with + and a country code");
        },
    };
    proof {
        assert(trimmed@.take(1) =~= "+"@);
        assert(trimmed@[0] == "+"@[0]);
    }
    if !only_digits(digits) {
        return Some("may only contain digits after the +");
    }
    let n = char_count(digits);
    if !(4 <= n && n <= 15) {
        return Some("is not a valid length");
    }
    None
}

/// The body asking Discord to text a code to the trimmed number.
pub fn send_code_body(phone: &str, reason: PhoneChangeReason) -> (body: JsonValue)
    ensures
        body.model() is Object,
        forall|k: Seq<char>| #[trigger] obj_get(entries(body.model()), k) == if k == "change_phone_reason"@ {
            Some(Json::Str(reason_text(reason)))
        } else if k == "phone"@ {
            Some(Json::Str(trim_seq(phone@)))
        } else {
            None
        },
{
    let mut fields: Vec<(String, JsonValue)> = Vec::new();
    put(&mut fields, "phone", str_value(trim(phone)));
    put(&mut fields, "change_phone_reason", str_value(reason.as_str()));
    JsonValue::Object(fields)
}

/// The body that attaches a verified number: it takes the account password
/// as well as the token.
pub fn attach_body(phone: &str, token: &PhoneVerificationToken, password: &Secret, reason: PhoneChangeReason) -> (body: JsonValue)
    ensures
        body.model() is Object,
        forall|k: Seq<char>| #[trigger] obj_get(entries(body.model()), k) == if k == "change_phone_reason"@ {
            Some(Json::Str(reason_text(reason)))
        } else if k == "password"@ {
            Some(Json::Str(password.value()))
        } else if k == "phone_token"@ {
            Some(Json::Str(token.text()))
        } else if k == "phone"@ {
            Some(Json::Str(trim_seq(phone@)))
        } else {
            None
        },
{
    let mut fields: Vec<(String, JsonValue)> = Vec::new();
    put(&mut fields, "phone", str_value(trim(phone)));
    put(&mut fields, "phone_token", str_value(token.as_str()));
    put(&mut fields, "password", str_value(password.expose()));
    put(&mut fields, "change_phone_reason", str_value(reason.as_str()));
    JsonValue::Object(fields)
}

/// The path segment that turns SMS two-factor on or off.
pub fn sms_mfa_action(enabled: bool) -> (s: &'static str)
    ensures
        s@ == if enabled { "enable"@ } else { "disable"@ },
{
    if enabled { "enable" } else { "disable" }
}

} // verus!
