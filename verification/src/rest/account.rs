//! Credentials and two-factor enrolment.
use vstd::prelude::*;

use crate::json::{fields_model, obj_get, put, str_value, Json, JsonValue};
use crate::secret::Secret;
use crate::text::{contains_char, contains_char_seq, contains_seq, contains_str, char_count};

verus! {

/// Discord's caps on a username, in characters.
pub const MIN_USERNAME_CHARS: usize = 2;
pub const MAX_USERNAME_CHARS: usize = 32;
/// Discord's minimum password length, in characters.
pub const MIN_PASSWORD_CHARS: usize = 6;

/// What to change about the account; `None` leaves a field alone. The
/// current password is separate and always required.
#[derive(Clone, PartialEq, Eq)]
pub struct AccountEdit {
    pub username: Option<String>,
    pub email: Option<String>,
    pub new_password: Option<Secret>,
}

impl Default for AccountEdit {
    fn default() -> (e: Self)
        ensures
            e.username is None,
            e.email is None,
            e.new_password is None,
    {
        AccountEdit { username: None, email: None, new_password: None }
    }
}

/// What the account body holds for a key: the current password always, and
/// each field that changes.
pub open spec fn account_body_field(edit: AccountEdit, current: Seq<char>, k: Seq<char>) -> Option<Json> {
    if k == "new_password"@ && edit.new_password is Some {
        Some(Json::Str(edit.new_password.unwrap().value()))
    } else if k == "email"@ && edit.email is Some {
        Some(Json::Str(edit.email.unwrap()@))
    } else if k == "username"@ && edit.username is Some {
        Some(Json::Str(edit.username.unwrap()@))
    } else if k == "password"@ {
        Some(Json::Str(current))
    } else {
        None
    }
}

impl AccountEdit {
    /// Whether this would change anything.
    pub fn is_empty(&self) -> (b: bool)
        ensures
            b == (self.username is None && self.email is None && self.new_password is None),
    {
        self.username.is_none() && self.email.is_none() && self.new_password.is_none()
    }

    /// The request body: the current password and only the changed fields.
    pub fn to_body(&self, current_password: &Secret) -> (body: JsonValue)
        ensures
            body.model() is Object,
            forall|k: Seq<char>| #[trigger] obj_get(crate::json::entries(body.model()), k)
                == account_body_field(*self, current_password.value(), k),
    {
        let mut fields: Vec<(String, JsonValue)> = Vec::new();
        put(&mut fields, "password", str_value(current_password.expose()));
        if let Some(username) = &self.username {
            put(&mut fields, "username", str_value(username.as_str()));
        }
        if let Some(email) = &self.email {
            put(&mut fields, "email", str_value(email.as_str()));
        }
        if let Some(password) = &self.new_password {
            put(&mut fields, "new_password", str_value(password.expose()));
        }
        JsonValue::Object(fields)
    }
}

/// Why Discord would refuse a username, if it would: fewer than two or more
/// than 32 characters, or any of `@`, `#`, `:` or a triple backtick, which
/// would be ambiguous in a mention or a code fence.
pub open spec fn username_problem_of(u: Seq<char>) -> Option<Seq<char>> {
    if u.len() < MIN_USERNAME_CHARS {
        Some("too short"@)
    } else if u.len() > MAX_USERNAME_CHARS {
        Some("too long"@)
    } else if contains_char_seq(u, '@') || contains_char_seq(u, '#') || contains_char_seq(u, ':')
        || contains_seq(u, "```"@) {
        Some("cannot contain @, #, : or ```"@)
    } else {
        None
    }
}

pub fn username_problem(username: &str) -> (p: Option<&'static str>)
    ensures
        p.deep_view() == username_problem_of(username@),
{
    let count = char_count(username);
    if count < MIN_USERNAME_CHARS {
        return Some("too short");
    }
    if count > MAX_USERNAME_CHARS {
        return Some("too long");
    }
    if contains_char(username, '@') || contains_char(username, '#') || contains_char(username, ':')
        || contains_str(username, "```") {
        return Some("cannot contain @, #, : or ```");
    }
    None
}

pub fn password_problem(password: &str) -> (p: Option<&'static str>)
    ensures
        p.deep_view() == if password@.len() < MIN_PASSWORD_CHARS { Some("too short"@) } else { None },
{
    if char_count(password) < MIN_PASSWORD_CHARS {
        return Some("too short");
    }
    None
}

/// One backup code as Discord sends it.
pub struct BackupCodeBody {
    pub code: Option<String>,
    pub consumed: bool,
}

/// One backup code.
#[derive(Clone, Debug, PartialEq, Eq)]
pub struct BackupCode {
    pub code: String,
    /// A used code is shown struck through rather than hidden, so the count
    /// on screen matches the count Discord issued.
    pub consumed: bool,
}

/// The codes of the bodies that carry one, in order, used ones included.
pub open spec fn codes_of(bodies: Seq<BackupCodeBody>) -> Seq<(Seq<char>, bool)>
    decreases bodies.len(),
{
    if bodies.len() == 0 {
        Seq::empty()
    } else {
        let rest = codes_of(bodies.drop_last());
        match bodies.last().code {
            Some(c) => rest.push((c@, bodies.last().consumed)),
            None => rest,
        }
    }
}

pub open spec fn backup_codes_view(codes: Seq<BackupCode>) -> Seq<(Seq<char>, bool)> {
    codes.map_values(|c: BackupCode| (c.code@, c.consumed))
}

/// The backup codes Discord answered with: a body with no code has nothing
/// to show or type and is dropped; a used one is kept.
pub fn collect_codes(bodies: Vec<BackupCodeBody>) -> (codes: Vec<BackupCode>)
    ensures
        backup_codes_view(codes@) == codes_of(bodies@),
{
    let mut codes: Vec<BackupCode> = Vec::new();
    let n = bodies.len();
    let mut i: usize = 0;
    while i < n
        invariant
            n == bodies@.len(),
            i <= n,
            backup_codes_view(codes@) == codes_of(bodies@.take(i as int)),
        decreases n - i,
    {
        proof {
            assert(bodies@.take(i + 1).drop_last() =~= bodies@.take(i as int));
        }
        if let Some(code) = &bodies[i].code {
            codes.push(BackupCode { code: crate::text::owned(code.as_str()), consumed: bodies[i].consumed });
        }
        assert(backup_codes_view(codes@) =~= codes_of(bodies@.take(i + 1)));
        i = i + 1;
    }
    assert(bodies@.take(n as int) =~= bodies@);
    codes
}

} // verus!
