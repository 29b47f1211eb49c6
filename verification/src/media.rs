//! Reading media kinds off file names, content types and CDN URLs.
use vstd::prelude::*;

use crate::text::{
    after_first, after_first_char, ascii_ci_eq, before_first, before_first_char, eq_ignore_ascii_case,
    has_prefix, lemma_rfind, rfind_char, rfind_seq, starts_with, trim, trim_seq,
};

verus! {

/// The attachment flag Discord sets on animated media.
pub const MEDIA_FLAG_IS_ANIMATED: u64 = 32;

/// The unfurled-media flag for the same thing: Discord's app docs and its
/// user-client payloads give different bits for this field, so both count.
pub const UNFURLED_MEDIA_FLAG_IS_ANIMATED: u64 = 1;

/// Image, video or audio: what an inline preview can show.
#[derive(Clone, Copy, Debug, PartialEq, Eq, Structural)]
pub enum AttachmentMediaType {
    Image,
    Video,
    Audio,
}

/// Nothing but white space, as `str::trim().is_empty()` decides.
pub open spec fn is_blank(s: Seq<char>) -> bool {
    trim_seq(s).len() == 0
}

pub fn blank(s: &str) -> (b: bool)
    ensures
        b == is_blank(s@),
{
    trim(s).unicode_len() == 0
}

/// What follows the last `.` of a file name, as `rsplit_once('.')` gives it.
pub open spec fn extension_of(filename: Seq<char>) -> Option<Seq<char>> {
    match rfind_seq(filename, '.') {
        Some(i) => Some(filename.skip(i + 1)),
        None => None,
    }
}

pub fn extension(filename: &str) -> (r: Option<&str>)
    ensures
        r.deep_view() == extension_of(filename@),
{
    match rfind_char(filename, '.') {
        Some(i) => {
            let n = filename.unicode_len();
            proof { lemma_rfind(filename@, '.'); }
            let e = filename.substring_char(i + 1, n);
            proof { assert(e@ =~= filename@.skip(i + 1)); }
            Some(e)
        },
        None => None,
    }
}

pub open spec fn is_image_extension(e: Seq<char>) -> bool {
    ||| ascii_ci_eq(e, "avif"@)
    ||| ascii_ci_eq(e, "gif"@)
    ||| ascii_ci_eq(e, "jpeg"@)
    ||| ascii_ci_eq(e, "jpg"@)
    ||| ascii_ci_eq(e, "png"@)
    ||| ascii_ci_eq(e, "webp"@)
}

pub open spec fn is_video_extension(e: Seq<char>) -> bool {
    ||| ascii_ci_eq(e, "m4v"@)
    ||| ascii_ci_eq(e, "mov"@)
    ||| ascii_ci_eq(e, "mp4"@)
    ||| ascii_ci_eq(e, "webm"@)
}

pub open spec fn is_audio_extension(e: Seq<char>) -> bool {
    ||| ascii_ci_eq(e, "mp3"@)
    ||| ascii_ci_eq(e, "m4a"@)
    ||| ascii_ci_eq(e, "opus"@)
    ||| ascii_ci_eq(e, "ogg"@)
    ||| ascii_ci_eq(e, "flac"@)
    ||| ascii_ci_eq(e, "wav"@)
    ||| ascii_ci_eq(e, "aiff"@)
}

fn image_extension(e: &str) -> (b: bool)
    ensures
        b == is_image_extension(e@),
{
    eq_ignore_ascii_case(e, "avif") || eq_ignore_ascii_case(e, "gif") || eq_ignore_ascii_case(e, "jpeg")
        || eq_ignore_ascii_case(e, "jpg") || eq_ignore_ascii_case(e, "png") || eq_ignore_ascii_case(e, "webp")
}

fn video_extension(e: &str) -> (b: bool)
    ensures
        b == is_video_extension(e@),
{
    eq_ignore_ascii_case(e, "m4v") || eq_ignore_ascii_case(e, "mov") || eq_ignore_ascii_case(e, "mp4")
        || eq_ignore_ascii_case(e, "webm")
}

fn audio_extension(e: &str) -> (b: bool)
    ensures
        b == is_audio_extension(e@),
{
    eq_ignore_ascii_case(e, "mp3") || eq_ignore_ascii_case(e, "m4a") || eq_ignore_ascii_case(e, "opus")
        || eq_ignore_ascii_case(e, "ogg") || eq_ignore_ascii_case(e, "flac") || eq_ignore_ascii_case(e, "wav")
        || eq_ignore_ascii_case(e, "aiff")
}

/// The media kind a content type names by its top-level type.
pub open spec fn media_type_by_content(content_type: Option<Seq<char>>) -> Option<AttachmentMediaType> {
    match content_type {
        Some(ct) => if has_prefix(ct, "image/"@) {
            Some(AttachmentMediaType::Image)
        } else if has_prefix(ct, "video/"@) {
            Some(AttachmentMediaType::Video)
        } else if has_prefix(ct, "audio/"@) {
            Some(AttachmentMediaType::Audio)
        } else {
            None
        },
        None => None,
    }
}

/// The media kind a file name's extension suggests.
pub open spec fn media_type_by_name(filename: Seq<char>) -> Option<AttachmentMediaType> {
    match extension_of(filename) {
        Some(e) => if is_image_extension(e) {
            Some(AttachmentMediaType::Image)
        } else if is_video_extension(e) {
            Some(AttachmentMediaType::Video)
        } else if is_audio_extension(e) {
            Some(AttachmentMediaType::Audio)
        } else {
            None
        },
        None => None,
    }
}

/// The content type decides when it names one of the three kinds; otherwise
/// the file name's extension does.
pub open spec fn media_type_of(content_type: Option<Seq<char>>, filename: Seq<char>) -> Option<AttachmentMediaType> {
    match media_type_by_content(content_type) {
        Some(t) => Some(t),
        None => media_type_by_name(filename),
    }
}

pub fn media_type_for(content_type: Option<&str>, filename: &str) -> (t: Option<AttachmentMediaType>)
    ensures
        t == media_type_of(content_type.deep_view(), filename@),
{
    if let Some(ct) = content_type {
        if starts_with(ct, "image/") {
            return Some(AttachmentMediaType::Image);
        } else if starts_with(ct, "video/") {
            return Some(AttachmentMediaType::Video);
        } else if starts_with(ct, "audio/") {
            return Some(AttachmentMediaType::Audio);
        }
    }
    match extension(filename) {
        Some(e) => if image_extension(e) {
            Some(AttachmentMediaType::Image)
        } else if video_extension(e) {
            Some(AttachmentMediaType::Video)
        } else if audio_extension(e) {
            Some(AttachmentMediaType::Audio)
        } else {
            None
        },
        None => None,
    }
}

/// `q`, split at `&`, has a parameter equal to `p` ignoring ASCII case.
/// `p` holds no `&`, so a window with a boundary on each side is exactly
/// one parameter.
pub open spec fn window_is_param(q: Seq<char>, p: Seq<char>, i: int) -> bool {
    &&& 0 <= i
    &&& i + p.len() <= q.len()
    &&& (i == 0 || q[i - 1] == '&')
    &&& (i + p.len() == q.len() || q[i + p.len()] == '&')
    &&& ascii_ci_eq(q.subrange(i, i + p.len()), p)
}

pub open spec fn has_param_ci(q: Seq<char>, p: Seq<char>) -> bool {
    exists|i: int| window_is_param(q, p, i)
}

fn query_has_param(q: &str, p: &str) -> (b: bool)
    requires
        p@.len() > 0,
    ensures
        b == has_param_ci(q@, p@),
{
    let n = q.unicode_len();
    let m = p.unicode_len();
    if m > n {
        return false;
    }
    let mut i: usize = 0;
    while i <= n - m
        invariant
            n == q@.len(),
            m == p@.len(),
            1 <= m <= n,
            i <= n - m + 1,
            forall|k: int| 0 <= k < i ==> !window_is_param(q@, p@, k),
        decreases n - m + 1 - i,
    {
        let left = i == 0 || q.get_char(i - 1) == '&';
        let right = i + m == n || q.get_char(i + m) == '&';
        if left && right && eq_ignore_ascii_case(q.substring_char(i, i + m), p) {
            assert(window_is_param(q@, p@, i as int));
            return true;
        }
        i = i + 1;
    }
    proof {
        assert forall|k: int| !window_is_param(q@, p@, k) by {
            if 0 <= k < i {
            }
        }
    }
    false
}

/// Whether a media file's name or URL marks it as animated: a `.gif` name
/// or URL path, or an `animated=true` query parameter in any case.
pub open spec fn name_is_animated(filename: Seq<char>, url: Seq<char>) -> bool {
    ||| extension_of(filename) matches Some(e) && ascii_ci_eq(e, "gif"@)
    ||| extension_of(before_first(url, '?')) matches Some(e) && ascii_ci_eq(e, "gif"@)
    ||| after_first(url, '?') matches Some(q) && has_param_ci(q, "animated=true"@)
}

pub fn media_name_is_animated(filename: &str, url: &str) -> (b: bool)
    ensures
        b == name_is_animated(filename@, url@),
{
    let by_name = match extension(filename) {
        Some(e) => eq_ignore_ascii_case(e, "gif"),
        None => false,
    };
    if by_name {
        return true;
    }
    let path = before_first_char(url, '?');
    let by_path = match extension(path) {
        Some(e) => eq_ignore_ascii_case(e, "gif"),
        None => false,
    };
    if by_path {
        return true;
    }
    match after_first_char(url, '?') {
        Some(q) => {
            proof { reveal_strlit("animated=true"); }
            query_has_param(q, "animated=true")
        },
        None => false,
    }
}

/// An attachment or embed image is animated when Discord flags it so or
/// its name says so.
pub open spec fn media_animated(flags: u64, filename: Seq<char>, url: Seq<char>) -> bool {
    flags & MEDIA_FLAG_IS_ANIMATED != 0 || name_is_animated(filename, url)
}

pub fn media_is_animated(flags: u64, filename: &str, url: &str) -> (b: bool)
    ensures
        b == media_animated(flags, filename@, url@),
{
    flags & MEDIA_FLAG_IS_ANIMATED != 0 || media_name_is_animated(filename, url)
}

/// Component media is animated under either of the two flag bits Discord
/// uses for it, or when its name says so.
pub open spec fn component_media_animated(flags: u64, filename: Seq<char>, url: Seq<char>) -> bool {
    flags & (UNFURLED_MEDIA_FLAG_IS_ANIMATED | MEDIA_FLAG_IS_ANIMATED) != 0 || name_is_animated(filename, url)
}

pub fn component_media_is_animated(flags: u64, filename: &str, url: &str) -> (b: bool)
    ensures
        b == component_media_animated(flags, filename@, url@),
{
    flags & (UNFURLED_MEDIA_FLAG_IS_ANIMATED | MEDIA_FLAG_IS_ANIMATED) != 0 || media_name_is_animated(filename, url)
}


/// A content type of one of the three top-level kinds decides the media
/// type whatever the file name says: `image/...` is an image, `video/...`
/// a video and `audio/...` audio.
pub proof fn law_content_type_decides_the_media_type(ct: Seq<char>, filename: Seq<char>)
    ensures
        has_prefix(ct, "image/"@) ==> media_type_of(Some(ct), filename) == Some(AttachmentMediaType::Image),
        has_prefix(ct, "video/"@) ==> media_type_of(Some(ct), filename) == Some(AttachmentMediaType::Video),
        has_prefix(ct, "audio/"@) ==> media_type_of(Some(ct), filename) == Some(AttachmentMediaType::Audio),
{
    reveal_strlit("image/");
    reveal_strlit("video/");
    reveal_strlit("audio/");
    if has_prefix(ct, "video/"@) || has_prefix(ct, "audio/"@) {
        if has_prefix(ct, "image/"@) {
            assert(ct.take(6)[0] == ct[0]);
            assert("image/"@[0] == 'i');
        }
    }
    if has_prefix(ct, "audio/"@) && has_prefix(ct, "video/"@) {
        assert(ct.take(6)[0] == ct[0]);
        assert("video/"@[0] == 'v');
        assert("audio/"@[0] == 'a');
    }
}

} // verus!
