//! Guild stickers: listing, naming and the file types an upload may be.
use vstd::prelude::*;

use crate::message::{sticker_format_from_wire, StickerFormat};
use crate::json::{entries, obj_get, put, Json, JsonValue};
use crate::text::{
    after_last, after_last_char, ascii_ci_eq, char_count, concat2, eq_ignore_ascii_case, join, join_seq, owned,
    parse_u64, parse_u64_seq, take_chars, trim, trim_seq, views,
};

verus! {

/// Discord's caps on a sticker.
pub const MIN_STICKER_NAME_CHARS: usize = 2;
pub const MAX_STICKER_NAME_CHARS: usize = 30;
pub const MAX_STICKER_TAGS_CHARS: usize = 200;
/// 500 KiB. Larger is refused outright rather than resized.
pub const MAX_STICKER_BYTES: u64 = 512000;

/// One sticker in a guild.
#[derive(Clone, Debug, PartialEq, Eq)]
pub struct GuildSticker {
    pub id: u64,
    pub name: String,
    pub description: Option<String>,
    /// Comma-separated suggestion keywords; free text.
    pub tags: String,
    pub format: StickerFormat,
    /// Whether it can be sent now. A server that loses boosts keeps its
    /// stickers but cannot send them.
    pub available: bool,
}

pub open spec fn sticker_format_label(f: StickerFormat) -> Seq<char> {
    match f {
        StickerFormat::Png => "PNG"@,
        StickerFormat::Apng => "animated PNG"@,
        StickerFormat::Lottie => "Lottie"@,
        StickerFormat::Gif => "GIF"@,
    }
}

/// The format, then why it cannot be sent, the tags and the description,
/// each where there is one, joined by " - ".
pub open spec fn sticker_summary(s: GuildSticker) -> Seq<char> {
    let a: Seq<Seq<char>> = seq![sticker_format_label(s.format)];
    let b = if !s.available { a.push("unavailable - the server lost boosts"@) } else { a };
    let c = if s.tags@.len() > 0 { b.push(s.tags@) } else { b };
    let d = match s.description {
        Some(t) => if t@.len() > 0 { c.push(t@) } else { c },
        None => c,
    };
    join_seq(d, " - "@)
}

impl GuildSticker {
    pub fn summary(&self) -> (s: String)
        ensures
            s@ == sticker_summary(*self),
    {
        let mut parts: Vec<String> = Vec::new();
        parts.push(owned(self.format.label()));
        let ghost a = views(parts@);
        if !self.available {
            parts.push(owned("unavailable - the server lost boosts"));
        }
        let ghost b = views(parts@);
        if self.tags.unicode_len() > 0 {
            parts.push(owned(self.tags.as_str()));
        }
        let ghost c = views(parts@);
        if let Some(description) = &self.description {
            if description.unicode_len() > 0 {
                parts.push(owned(description.as_str()));
            }
        }
        proof {
            assert(a =~= seq![sticker_format_label(self.format)]);
            assert(b =~= if !self.available { a.push("unavailable - the server lost boosts"@) } else { a });
            assert(c =~= if self.tags@.len() > 0 { b.push(self.tags@) } else { b });
            assert(views(parts@) =~= match self.description {
                Some(t) => if t@.len() > 0 { c.push(t@) } else { c },
                None => c,
            });
        }
        join(&parts, " - ")
    }
}

/// Why Discord would refuse a sticker name, counted in characters once
/// trimmed.
pub open spec fn sticker_name_problem_of(name: Seq<char>) -> Option<Seq<char>> {
    let count = trim_seq(name).len();
    if count < MIN_STICKER_NAME_CHARS {
        Some("needs a name of at least two characters"@)
    } else if count > MAX_STICKER_NAME_CHARS {
        Some("name is too long"@)
    } else {
        None
    }
}

/// Whether Discord would accept this as a sticker name, and if not, why.
pub fn sticker_name_problem(name: &str) -> (p: Option<&'static str>)
    ensures
        p.deep_view() == sticker_name_problem_of(name@),
{
    let count = char_count(trim(name));
    if count < MIN_STICKER_NAME_CHARS {
        return Some("needs a name of at least two characters");
    }
    if count > MAX_STICKER_NAME_CHARS {
        return Some("name is too long");
    }
    None
}

/// The content type for a file Discord accepts as a sticker, going by what
/// follows the path's last dot (letters in either case): PNG and APNG are
/// `image/png`, GIF `image/gif`, and Lottie is JSON.
pub open spec fn sticker_content_type_of(path: Seq<char>) -> Option<Seq<char>> {
    let ext = after_last(path, '.');
    if ascii_ci_eq(ext, "png"@) || ascii_ci_eq(ext, "apng"@) {
        Some("image/png"@)
    } else if ascii_ci_eq(ext, "gif"@) {
        Some("image/gif"@)
    } else if ascii_ci_eq(ext, "json"@) {
        Some("application/json"@)
    } else {
        None
    }
}

pub fn sticker_content_type(path: &str) -> (t: Option<&'static str>)
    ensures
        t.deep_view() == sticker_content_type_of(path@),
{
    let extension = after_last_char(path, '.');
    if eq_ignore_ascii_case(extension, "png") || eq_ignore_ascii_case(extension, "apng") {
        Some("image/png")
    } else if eq_ignore_ascii_case(extension, "gif") {
        Some("image/gif")
    } else if eq_ignore_ascii_case(extension, "json") {
        Some("application/json")
    } else {
        None
    }
}

/// A sticker as Discord lists it. An absent `available` means usable.
pub struct StickerBody {
    pub id: Option<String>,
    pub name: Option<String>,
    pub description: Option<String>,
    pub tags: String,
    pub format_type: u64,
    pub available: bool,
}

/// The sticker a body describes: without a readable id there is nothing to
/// rename or delete, so none.
pub fn sticker_from_body(body: StickerBody) -> (s: Option<GuildSticker>)
    ensures
        s is Some <==> (body.id matches Some(t) && parse_u64_seq(t@) is Some),
        s matches Some(st) ==> {
            &&& st.id == parse_u64_seq(body.id.unwrap()@).unwrap()
            &&& st.name@ == match body.name {
                Some(n) => n@,
                None => Seq::empty(),
            }
            &&& st.description.deep_view() == match body.description {
                Some(d) => if d@.len() > 0 { Some(d@) } else { None },
                None => None,
            }
            &&& st.tags@ == body.tags@
            &&& st.format == sticker_format_from_wire(body.format_type)
            &&& st.available == body.available
        },
{
    let id = match &body.id {
        Some(text) => match parse_u64(text.as_str()) {
            Some(v) => v,
            None => return None,
        },
        None => return None,
    };
    let description = match body.description {
        Some(d) => if d.unicode_len() > 0 { Some(d) } else { None },
        None => None,
    };
    Some(GuildSticker {
        id,
        name: match body.name {
            Some(n) => n,
            None => String::new(),
        },
        description,
        tags: body.tags,
        format: StickerFormat::from_wire(body.format_type),
        available: body.available,
    })
}

/// What the upload form carries besides the file's bytes.
pub struct StickerUpload {
    /// The name, cut to Discord's cap.
    pub name: String,
    /// Required even when empty.
    pub description: String,
    /// The tags, cut to Discord's cap.
    pub tags: String,
    /// What follows the path's last `/`.
    pub file_name: String,
    pub content_type: &'static str,
}

pub open spec fn capped(s: Seq<char>, n: usize) -> Seq<char> {
    s.take(if s.len() <= n { s.len() as int } else { n as int })
}

/// Checked before the file is read: a name Discord would refuse, or a file
/// type it does not take, fails here with the reason; otherwise the content
/// type the file is sent as.
pub fn check_sticker_upload(name: &str, path: &str) -> (r: Result<&'static str, String>)
    ensures
        match sticker_name_problem_of(name@) {
            Some(p) => r matches Err(e) && e@ == "a sticker "@ + p,
            None => match sticker_content_type_of(path@) {
                Some(t) => r matches Ok(c) && c@ == t,
                None => r matches Err(e) && e@ == "a sticker must be a PNG, APNG, GIF or Lottie JSON file"@,
            },
        },
{
    if let Some(problem) = sticker_name_problem(name) {
        return Err(concat2("a sticker ", problem));
    }
    match sticker_content_type(path) {
        Some(t) => Ok(t),
        None => Err(owned("a sticker must be a PNG, APNG, GIF or Lottie JSON file")),
    }
}

/// The form for a file of `byte_count` bytes that passed
/// `check_sticker_upload`, or the refusal when it is over Discord's size cap.
pub fn sticker_upload(name: &str, tags: &str, path: &str, content_type: &'static str, byte_count: u64) -> (r: Result<StickerUpload, String>)
    ensures
        byte_count > MAX_STICKER_BYTES <==> r is Err,
        r matches Err(e) ==> e@ == "a sticker must be under 500 KiB"@,
        r matches Ok(u) ==> {
            &&& u.name@ == capped(name@, MAX_STICKER_NAME_CHARS)
            &&& u.description@ == Seq::<char>::empty()
            &&& u.tags@ == capped(tags@, MAX_STICKER_TAGS_CHARS)
            &&& u.file_name@ == after_last(path@, '/')
            &&& u.content_type == content_type
        },
{
    if byte_count > MAX_STICKER_BYTES {
        return Err(owned("a sticker must be under 500 KiB"));
    }
    Ok(StickerUpload {
        name: take_chars(name, MAX_STICKER_NAME_CHARS),
        description: String::new(),
        tags: take_chars(tags, MAX_STICKER_TAGS_CHARS),
        file_name: owned(after_last_char(path, '/')),
        content_type,
    })
}

/// The body that renames a sticker, the name cut to Discord's cap.
pub fn rename_sticker_body(name: &str) -> (body: JsonValue)
    ensures
        body.model() is Object,
        forall|k: Seq<char>| #[trigger] obj_get(entries(body.model()), k) == if k == "name"@ {
            Some(Json::Str(capped(name@, MAX_STICKER_NAME_CHARS)))
        } else {
            None
        },
{
    let mut fields: Vec<(String, JsonValue)> = Vec::new();
    put(&mut fields, "name", JsonValue::Str(take_chars(name, MAX_STICKER_NAME_CHARS)));
    JsonValue::Object(fields)
}

} // verus!
