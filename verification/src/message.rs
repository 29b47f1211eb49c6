//! Messages as the client models them, and what can be previewed inline.
use vstd::prelude::*;

use crate::ids::marker::{
    AttachmentMarker, ChannelMarker, EmojiMarker, GuildMarker, MessageMarker, RoleMarker, StickerMarker,
    UserMarker, WebhookMarker,
};
use crate::ids::Id;
use crate::media::{
    component_media_animated, component_media_is_animated, media_animated, media_is_animated,
    law_content_type_decides_the_media_type, media_type_for, media_type_of, AttachmentMediaType,
};
use crate::text::{
    after_last, after_last_char, before_first, before_first_char, concat3, decimal, decimal_string, has_prefix,
    owned, push_str, same_text, strip_prefix,
};

pub mod components;

use components::{first_text_from, nonblank, MessageComponentInfo};

verus! {

/// Suppress embeds on a message.
pub const MESSAGE_FLAG_SUPPRESS_EMBEDS: u64 = 4;

/// The message carries its content in a component tree (components V2).
pub const MESSAGE_FLAG_IS_COMPONENTS_V2: u64 = 32768;

/// The accent a preview gets when its embed names no colour.
pub const DEFAULT_EMBED_ACCENT: u32 = 0xff0000;

/// Where sticker images are served from.
pub const STICKER_CDN: &'static str = "https://media.discordapp.net/stickers/";

// ---------------------------------------------------------------------------
// Message kinds
// ---------------------------------------------------------------------------

/// Discord's message `type`.
#[derive(Clone, Copy, Debug, PartialEq, Eq, PartialOrd, Ord, Hash)]
pub struct MessageKind {
    code: u8,
}

/// The label Discord's own client gives each message type it knows.
pub open spec fn kind_label(code: u8) -> Option<Seq<char>> {
    match code {
        0 => Some("Default"@),
        1 => Some("Recipient add"@),
        2 => Some("Recipient remove"@),
        3 => Some("Call"@),
        4 => Some("Channel name change"@),
        5 => Some("Channel icon change"@),
        6 => Some("Pinned message"@),
        7 => Some("User join"@),
        8 => Some("Guild boost"@),
        9 => Some("Guild boost tier 1"@),
        10 => Some("Guild boost tier 2"@),
        11 => Some("Guild boost tier 3"@),
        12 => Some("Channel follow add"@),
        13 => Some("Guild stream"@),
        14 => Some("Guild discovery disqualified"@),
        15 => Some("Guild discovery requalified"@),
        16 => Some("Guild discovery initial warning"@),
        17 => Some("Guild discovery final warning"@),
        18 => Some("Thread created"@),
        19 => Some("Reply"@),
        20 => Some("Chat input command"@),
        21 => Some("Thread starter message"@),
        22 => Some("Guild invite reminder"@),
        23 => Some("Context menu command"@),
        24 => Some("Auto moderation action"@),
        25 => Some("Role subscription purchase"@),
        26 => Some("Premium upsell"@),
        27 => Some("Stage start"@),
        28 => Some("Stage end"@),
        29 => Some("Stage speaker"@),
        30 => Some("Stage raise hand"@),
        31 => Some("Stage topic"@),
        32 => Some("Application premium subscription"@),
        33 => Some("Integration added"@),
        34 => Some("Integration removed"@),
        35 => Some("Premium referral"@),
        36 => Some("Incident alert mode enabled"@),
        37 => Some("Incident alert mode disabled"@),
        38 => Some("Incident raid report"@),
        39 => Some("Incident false alarm report"@),
        40 => Some("Revive prompt"@),
        41 => Some("Gift"@),
        42 => Some("Gaming stats prompt"@),
        44 => Some("Purchase notification"@),
        45 => Some("Voice hangout invite"@),
        46 => Some("Poll result"@),
        47 => Some("Changelog"@),
        48 => Some("Nitro notification"@),
        49 => Some("Channel linked to lobby"@),
        50 => Some("Gifting prompt"@),
        51 => Some("In-game message intro"@),
        52 => Some("Join request accepted"@),
        53 => Some("Join request rejected"@),
        54 => Some("Join request withdrawn"@),
        55 => Some("HD streaming upgraded"@),
        56 => Some("Chat wallpaper set"@),
        57 => Some("Chat wallpaper removed"@),
        58 => Some("Moderator deleted a message"@),
        59 => Some("Moderator timed a member out"@),
        60 => Some("Moderator kicked a member"@),
        61 => Some("Moderator banned a member"@),
        62 => Some("Moderator closed a report"@),
        63 => Some("Emoji added"@),
        64 => Some("Premium group invite"@),
        65 => Some("Voice session"@),
        66 => Some("Guild boost upsell"@),
        67 => Some("Friend request accepted"@),
        68 => Some("Media mention"@),
        _ => None,
    }
}

impl MessageKind {
    pub closed spec fn spec_code(self) -> u8 {
        self.code
    }

    pub fn new(code: u8) -> (k: Self)
        ensures
            k.spec_code() == code,
    {
        MessageKind { code }
    }

    pub fn regular() -> (k: Self)
        ensures
            k.spec_code() == 0,
    {
        Self::new(0)
    }

    pub fn code(self) -> (c: u8)
        ensures
            c == self.spec_code(),
    {
        self.code
    }

    pub fn is_regular(self) -> (b: bool)
        ensures
            b == (self.spec_code() == 0),
    {
        self.code == 0
    }

    pub fn is_regular_or_reply(self) -> (b: bool)
        ensures
            b == (self.spec_code() == 0 || self.spec_code() == 19),
    {
        self.code == 0 || self.code == 19
    }

    pub fn is_poll_result(self) -> (b: bool)
        ensures
            b == (self.spec_code() == 46),
    {
        self.code == 46
    }

    pub fn is_recipient_remove(self) -> (b: bool)
        ensures
            b == (self.spec_code() == 2),
    {
        self.code == 2
    }

    /// The label for a type Discord's client knows; 43 is absent from
    /// Discord's own table.
    pub fn known_label(self) -> (r: Option<&'static str>)
        ensures
            r.deep_view() == kind_label(self.spec_code()),
    {
        match self.code {
            0 => Some("Default"),
            1 => Some("Recipient add"),
            2 => Some("Recipient remove"),
            3 => Some("Call"),
            4 => Some("Channel name change"),
            5 => Some("Channel icon change"),
            6 => Some("Pinned message"),
            7 => Some("User join"),
            8 => Some("Guild boost"),
            9 => Some("Guild boost tier 1"),
            10 => Some("Guild boost tier 2"),
            11 => Some("Guild boost tier 3"),
            12 => Some("Channel follow add"),
            13 => Some("Guild stream"),
            14 => Some("Guild discovery disqualified"),
            15 => Some("Guild discovery requalified"),
            16 => Some("Guild discovery initial warning"),
            17 => Some("Guild discovery final warning"),
            18 => Some("Thread created"),
            19 => Some("Reply"),
            20 => Some("Chat input command"),
            21 => Some("Thread starter message"),
            22 => Some("Guild invite reminder"),
            23 => Some("Context menu command"),
            24 => Some("Auto moderation action"),
            25 => Some("Role subscription purchase"),
            26 => Some("Premium upsell"),
            27 => Some("Stage start"),
            28 => Some("Stage end"),
            29 => Some("Stage speaker"),
            30 => Some("Stage raise hand"),
            31 => Some("Stage topic"),
            32 => Some("Application premium subscription"),
            33 => Some("Integration added"),
            34 => Some("Integration removed"),
            35 => Some("Premium referral"),
            36 => Some("Incident alert mode enabled"),
            37 => Some("Incident alert mode disabled"),
            38 => Some("Incident raid report"),
            39 => Some("Incident false alarm report"),
            40 => Some("Revive prompt"),
            41 => Some("Gift"),
            42 => Some("Gaming stats prompt"),
            44 => Some("Purchase notification"),
            45 => Some("Voice hangout invite"),
            46 => Some("Poll result"),
            47 => Some("Changelog"),
            48 => Some("Nitro notification"),
            49 => Some("Channel linked to lobby"),
            50 => Some("Gifting prompt"),
            51 => Some("In-game message intro"),
            52 => Some("Join request accepted"),
            53 => Some("Join request rejected"),
            54 => Some("Join request withdrawn"),
            55 => Some("HD streaming upgraded"),
            56 => Some("Chat wallpaper set"),
            57 => Some("Chat wallpaper removed"),
            58 => Some("Moderator deleted a message"),
            59 => Some("Moderator timed a member out"),
            60 => Some("Moderator kicked a member"),
            61 => Some("Moderator banned a member"),
            62 => Some("Moderator closed a report"),
            63 => Some("Emoji added"),
            64 => Some("Premium group invite"),
            65 => Some("Voice session"),
            66 => Some("Guild boost upsell"),
            67 => Some("Friend request accepted"),
            68 => Some("Media mention"),
            _ => None,
        }
    }

    /// The label, or "Unknown message type" for a type with none.
    pub fn label(self) -> (s: &'static str)
        ensures
            s@ == match kind_label(self.spec_code()) {
                Some(l) => l,
                None => "Unknown message type"@,
            },
    {
        match self.known_label() {
            Some(label) => label,
            None => "Unknown message type",
        }
    }
}

impl Default for MessageKind {
    fn default() -> (k: Self)
        ensures
            k.spec_code() == 0,
    {
        Self::regular()
    }
}

/// Law: every message type from 0 through 68 but 43 has a label, and no
/// other has one.
pub proof fn law_known_kinds_are_labelled(code: u8)
    ensures
        kind_label(code) is Some <==> (code <= 68 && code != 43),
{
}

// ---------------------------------------------------------------------------
// Inline previews
// ---------------------------------------------------------------------------

/// Something that can be shown as an image where a message is drawn,
/// borrowing its strings from the message it came from.
#[derive(Clone, Copy, Debug, PartialEq, Eq)]
pub struct InlinePreviewInfo<'a> {
    pub url: &'a str,
    pub proxy_url: Option<&'a str>,
    pub filename: &'a str,
    pub width: Option<u64>,
    pub height: Option<u64>,
    pub accent_color: Option<u32>,
    pub animated: bool,
    /// Only the proxy can render this (a video's still frame).
    pub proxy_preview_only: bool,
    pub show_play_marker: bool,
}

/// An inline preview with its strings as character sequences.
pub struct PreviewView {
    pub url: Seq<char>,
    pub proxy_url: Option<Seq<char>>,
    pub filename: Seq<char>,
    pub width: Option<u64>,
    pub height: Option<u64>,
    pub accent_color: Option<u32>,
    pub animated: bool,
    pub proxy_preview_only: bool,
    pub show_play_marker: bool,
}

impl<'a> View for InlinePreviewInfo<'a> {
    type V = PreviewView;

    open spec fn view(&self) -> PreviewView {
        PreviewView {
            url: self.url@,
            proxy_url: self.proxy_url.deep_view(),
            filename: self.filename@,
            width: self.width,
            height: self.height,
            accent_color: self.accent_color,
            animated: self.animated,
            proxy_preview_only: self.proxy_preview_only,
            show_play_marker: self.show_play_marker,
        }
    }
}

pub open spec fn previews_view<'a>(s: Seq<InlinePreviewInfo<'a>>) -> Seq<PreviewView> {
    s.map_values(|p: InlinePreviewInfo<'a>| p@)
}

pub open spec fn preview_opt_view<'a>(p: Option<InlinePreviewInfo<'a>>) -> Option<PreviewView> {
    match p {
        Some(p) => Some(p@),
        None => None,
    }
}

/// The first of two options that is present.
pub open spec fn or_else<T>(a: Option<T>, b: Option<T>) -> Option<T> {
    match a {
        Some(x) => Some(x),
        None => b,
    }
}

fn first_of<T: Copy>(a: Option<T>, b: Option<T>) -> (r: Option<T>)
    ensures
        r == or_else(a, b),
{
    match a {
        Some(x) => Some(x),
        None => b,
    }
}

// ---------------------------------------------------------------------------
// Stickers
// ---------------------------------------------------------------------------

/// Discord's sticker `format_type`.
#[derive(Clone, Copy, Debug, PartialEq, Eq, Structural)]
pub enum StickerFormat {
    Png,
    Apng,
    /// Vector animation: not renderable as an image, so a client that cannot
    /// play it falls back to the sticker's name.
    Lottie,
    Gif,
}

pub open spec fn sticker_format_from_wire(value: u64) -> StickerFormat {
    match value {
        2 => StickerFormat::Apng,
        3 => StickerFormat::Lottie,
        4 => StickerFormat::Gif,
        _ => StickerFormat::Png,
    }
}

pub open spec fn sticker_format_to_wire(f: StickerFormat) -> u64 {
    match f {
        StickerFormat::Png => 1,
        StickerFormat::Apng => 2,
        StickerFormat::Lottie => 3,
        StickerFormat::Gif => 4,
    }
}

pub open spec fn sticker_extension(f: StickerFormat) -> Seq<char> {
    match f {
        StickerFormat::Png | StickerFormat::Apng => "png"@,
        StickerFormat::Lottie => "json"@,
        StickerFormat::Gif => "gif"@,
    }
}

impl Default for StickerFormat {
    fn default() -> (f: Self)
        ensures
            f == StickerFormat::Png,
    {
        StickerFormat::Png
    }
}

impl StickerFormat {
    /// The format for a wire value; 1, and any value not yet known, is PNG,
    /// the safest guess for rendering.
    pub fn from_wire(value: u64) -> (f: Self)
        ensures
            f == sticker_format_from_wire(value),
    {
        match value {
            2 => StickerFormat::Apng,
            3 => StickerFormat::Lottie,
            4 => StickerFormat::Gif,
            _ => StickerFormat::Png,
        }
    }

    /// How the format reads in a management list.
    pub fn label(self) -> (s: &'static str)
        ensures
            s@ == match self {
                StickerFormat::Png => "PNG"@,
                StickerFormat::Apng => "animated PNG"@,
                StickerFormat::Lottie => "Lottie"@,
                StickerFormat::Gif => "GIF"@,
            },
    {
        match self {
            StickerFormat::Png => "PNG",
            StickerFormat::Apng => "animated PNG",
            StickerFormat::Lottie => "Lottie",
            StickerFormat::Gif => "GIF",
        }
    }

    /// The number Discord uses for the format.
    pub fn to_wire(self) -> (v: u64)
        ensures
            v == sticker_format_to_wire(self),
    {
        match self {
            StickerFormat::Png => 1,
            StickerFormat::Apng => 2,
            StickerFormat::Lottie => 3,
            StickerFormat::Gif => 4,
        }
    }

    /// Whether this can be shown as an image at all.
    pub fn is_image(self) -> (b: bool)
        ensures
            b == (self != StickerFormat::Lottie),
    {
        !matches!(self, StickerFormat::Lottie)
    }

    /// The file extension the CDN serves the format under; animated PNG is
    /// served as `.png`.
    pub fn extension(self) -> (s: &'static str)
        ensures
            s@ == sticker_extension(self),
    {
        match self {
            StickerFormat::Png | StickerFormat::Apng => "png",
            StickerFormat::Lottie => "json",
            StickerFormat::Gif => "gif",
        }
    }
}

/// Law: a stored format reads back as itself, and a wire value every format
/// produces reads back as that value.
pub proof fn law_sticker_format_round_trips(f: StickerFormat, value: u64)
    ensures
        sticker_format_from_wire(sticker_format_to_wire(f)) == f,
        1 <= value <= 4 ==> sticker_format_to_wire(sticker_format_from_wire(value)) == value,
{
}

/// A sticker on a message.
#[derive(Clone, Debug, PartialEq, Eq)]
pub struct StickerInfo {
    pub id: Id<StickerMarker>,
    pub name: String,
    pub format: StickerFormat,
    /// CDN URL, stored so an inline preview can borrow it. Empty for
    /// formats with no image, such as Lottie.
    pub url: String,
}

/// The CDN URL of a sticker image.
pub open spec fn sticker_url(id: u64, format: StickerFormat) -> Seq<char> {
    if format != StickerFormat::Lottie {
        STICKER_CDN@ + decimal(id as nat) + "."@ + sticker_extension(format)
    } else {
        Seq::empty()
    }
}

impl StickerInfo {
    /// A PNG sticker with the given id and name.
    pub fn test(id: u64, name: &str) -> (s: Self)
        requires
            id != 0,
        ensures
            s.id@ == id,
            s.name@ == name@,
            s.format == StickerFormat::Png,
            s.url@ == sticker_url(id, StickerFormat::Png),
    {
        Self::new(Id::new(id), owned(name), StickerFormat::Png)
    }

    /// A sticker, with its CDN URL derived from the id and format.
    pub fn new(id: Id<StickerMarker>, name: String, format: StickerFormat) -> (s: Self)
        ensures
            s.id == id,
            s.name == name,
            s.format == format,
            s.url@ == sticker_url(id@, format),
    {
        let url = if format.is_image() {
            let mut u = concat3(STICKER_CDN, decimal_string(id.get()).as_str(), ".");
            push_str(&mut u, format.extension());
            u
        } else {
            String::new()
        };
        StickerInfo { id, name, format, url }
    }

    /// The sticker as an inline preview at Discord's own 160-square size;
    /// a Lottie sticker has none.
    pub fn inline_preview_info(&self) -> (p: Option<InlinePreviewInfo<'_>>)
        ensures
            preview_opt_view(p) == if self.format != StickerFormat::Lottie {
                Some(PreviewView {
                    url: self.url@,
                    proxy_url: None,
                    filename: self.name@,
                    width: Some(160u64),
                    height: Some(160u64),
                    accent_color: None,
                    animated: self.format == StickerFormat::Apng || self.format == StickerFormat::Gif,
                    proxy_preview_only: false,
                    show_play_marker: false,
                })
            } else {
                None
            },
    {
        if self.format.is_image() {
            Some(InlinePreviewInfo {
                url: self.url.as_str(),
                proxy_url: None,
                filename: self.name.as_str(),
                width: Some(160),
                height: Some(160),
                accent_color: None,
                animated: matches!(self.format, StickerFormat::Apng | StickerFormat::Gif),
                proxy_preview_only: false,
                show_play_marker: false,
            })
        } else {
            None
        }
    }

    /// The CDN URL of the sticker image, if it has one.
    pub fn image_url(&self) -> (u: Option<String>)
        ensures
            u.deep_view() == if self.url@.len() > 0 { Some(self.url@) } else { None },
    {
        if self.url.unicode_len() > 0 {
            Some(owned(self.url.as_str()))
        } else {
            None
        }
    }
}

// ---------------------------------------------------------------------------
// Attachments
// ---------------------------------------------------------------------------

#[derive(Clone, Debug, PartialEq, Eq)]
pub struct AttachmentInfo {
    pub id: Id<AttachmentMarker>,
    pub filename: String,
    pub url: String,
    pub proxy_url: String,
    pub content_type: Option<String>,
    pub size: u64,
    pub width: Option<u64>,
    pub height: Option<u64>,
    pub description: Option<String>,
    pub flags: u64,
}

/// The URL to fetch: the direct one, else the proxy, else none.
pub open spec fn attachment_preferred_url(a: AttachmentInfo) -> Option<Seq<char>> {
    if a.url@.len() == 0 {
        if a.proxy_url@.len() > 0 { Some(a.proxy_url@) } else { None }
    } else {
        Some(a.url@)
    }
}

pub open spec fn attachment_media_type(a: AttachmentInfo) -> Option<AttachmentMediaType> {
    media_type_of(a.content_type.deep_view(), a.filename@)
}

pub open spec fn attachment_preview_url(a: AttachmentInfo) -> Option<Seq<char>> {
    if attachment_media_type(a) == Some(AttachmentMediaType::Image) {
        attachment_preferred_url(a)
    } else {
        None
    }
}

/// A video with a proxy previews its still frame through the proxy; an
/// image previews itself; nothing else previews.
pub open spec fn attachment_preview(a: AttachmentInfo) -> Option<PreviewView> {
    if attachment_media_type(a) == Some(AttachmentMediaType::Video) && a.proxy_url@.len() > 0 {
        Some(PreviewView {
            url: a.proxy_url@,
            proxy_url: Some(a.proxy_url@),
            filename: a.filename@,
            width: a.width,
            height: a.height,
            accent_color: None,
            animated: false,
            proxy_preview_only: true,
            show_play_marker: true,
        })
    } else {
        match attachment_preview_url(a) {
            Some(u) => Some(PreviewView {
                url: u,
                proxy_url: if a.proxy_url@.len() > 0 { Some(a.proxy_url@) } else { None },
                filename: a.filename@,
                width: a.width,
                height: a.height,
                accent_color: None,
                animated: media_animated(a.flags, a.filename@, a.url@),
                proxy_preview_only: false,
                show_play_marker: false,
            }),
            None => None,
        }
    }
}

impl AttachmentInfo {
    /// An attachment with the given id and name and nothing else known.
    pub fn test(id: Id<AttachmentMarker>, filename: &str) -> (a: Self)
        ensures
            a.id == id,
            a.filename@ == filename@,
            a.url@.len() == 0,
            a.proxy_url@.len() == 0,
            a.content_type is None,
            a.size == 0,
            a.width is None,
            a.height is None,
            a.description is None,
            a.flags == 0,
    {
        AttachmentInfo {
            id,
            filename: owned(filename),
            url: String::new(),
            proxy_url: String::new(),
            content_type: None,
            size: 0,
            width: None,
            height: None,
            description: None,
            flags: 0,
        }
    }

    pub fn preferred_url(&self) -> (u: Option<&str>)
        ensures
            u.deep_view() == attachment_preferred_url(*self),
    {
        if self.url.unicode_len() == 0 {
            if self.proxy_url.unicode_len() > 0 {
                Some(self.proxy_url.as_str())
            } else {
                None
            }
        } else {
            Some(self.url.as_str())
        }
    }

    pub fn media_type(&self) -> (t: Option<AttachmentMediaType>)
        ensures
            t == attachment_media_type(*self),
    {
        let ct = match &self.content_type {
            Some(c) => Some(c.as_str()),
            None => None,
        };
        media_type_for(ct, self.filename.as_str())
    }

    pub fn inline_preview_url(&self) -> (u: Option<&str>)
        ensures
            u.deep_view() == attachment_preview_url(*self),
    {
        match self.media_type() {
            Some(AttachmentMediaType::Image) => self.preferred_url(),
            _ => None,
        }
    }

    pub fn inline_preview_info(&self) -> (p: Option<InlinePreviewInfo<'_>>)
        ensures
            preview_opt_view(p) == attachment_preview(*self),
    {
        let t = self.media_type();
        if matches!(t, Some(AttachmentMediaType::Video)) && self.proxy_url.unicode_len() > 0 {
            return Some(InlinePreviewInfo {
                url: self.proxy_url.as_str(),
                proxy_url: Some(self.proxy_url.as_str()),
                filename: self.filename.as_str(),
                width: self.width,
                height: self.height,
                accent_color: None,
                animated: false,
                proxy_preview_only: true,
                show_play_marker: true,
            });
        }
        let url = match self.inline_preview_url() {
            Some(u) => u,
            None => return None,
        };
        let proxy_url = if self.proxy_url.unicode_len() > 0 { Some(self.proxy_url.as_str()) } else { None };
        Some(InlinePreviewInfo {
            url,
            proxy_url,
            filename: self.filename.as_str(),
            width: self.width,
            height: self.height,
            accent_color: None,
            animated: media_is_animated(self.flags, self.filename.as_str(), self.url.as_str()),
            proxy_preview_only: false,
            show_play_marker: false,
        })
    }
}

/// Whether an edit replaced a message's attachments.
#[derive(Clone, Debug, PartialEq, Eq)]
pub enum AttachmentUpdate {
    Unchanged,
    Replace(Vec<AttachmentInfo>),
}

impl AttachmentUpdate {
    pub fn replacement(&self) -> (r: Option<&[AttachmentInfo]>)
        ensures
            match self {
                AttachmentUpdate::Unchanged => r is None,
                AttachmentUpdate::Replace(v) => r matches Some(s) && s@ == v@,
            },
    {
        match self {
            AttachmentUpdate::Unchanged => None,
            AttachmentUpdate::Replace(attachments) => Some(attachments.as_slice()),
        }
    }
}


// ---------------------------------------------------------------------------
// Embeds
// ---------------------------------------------------------------------------

#[derive(Clone, Debug, PartialEq, Eq)]
pub struct EmbedFieldInfo {
    pub name: String,
    pub value: String,
    pub inline: bool,
}

#[derive(Clone, Debug, PartialEq, Eq)]
pub struct EmbedInfo {
    pub kind: Option<String>,
    pub flags: u64,
    pub color: Option<u32>,
    pub provider_name: Option<String>,
    pub provider_url: Option<String>,
    pub author_name: Option<String>,
    pub author_url: Option<String>,
    pub title: Option<String>,
    pub description: Option<String>,
    pub timestamp: Option<String>,
    pub fields: Vec<EmbedFieldInfo>,
    pub footer_text: Option<String>,
    pub url: Option<String>,
    pub thumbnail_url: Option<String>,
    pub thumbnail_proxy_url: Option<String>,
    pub thumbnail_width: Option<u64>,
    pub thumbnail_height: Option<u64>,
    pub thumbnail_content_type: Option<String>,
    pub thumbnail_description: Option<String>,
    pub thumbnail_flags: u64,
    pub image_url: Option<String>,
    pub image_proxy_url: Option<String>,
    pub image_width: Option<u64>,
    pub image_height: Option<u64>,
    pub image_content_type: Option<String>,
    pub image_description: Option<String>,
    pub image_flags: u64,
    /// Animated image rendition chosen for a `gifv` embed.
    pub gifv_image_url: Option<String>,
    pub gifv_image_proxy_url: Option<String>,
    pub video_url: Option<String>,
    pub video_proxy_url: Option<String>,
    pub video_width: Option<u64>,
    pub video_height: Option<u64>,
    pub video_content_type: Option<String>,
    pub video_description: Option<String>,
    pub video_flags: u64,
}

impl EmbedInfo {
    /// Nothing is set: every option absent, every flag word zero, no fields.
    pub open spec fn is_empty_embed(&self) -> bool {
        &&& self.kind is None && self.flags == 0 && self.color is None
        &&& self.provider_name is None && self.provider_url is None
        &&& self.author_name is None && self.author_url is None
        &&& self.title is None && self.description is None && self.timestamp is None
        &&& self.fields@.len() == 0 && self.footer_text is None && self.url is None
        &&& self.thumbnail_url is None && self.thumbnail_proxy_url is None
        &&& self.thumbnail_width is None && self.thumbnail_height is None
        &&& self.thumbnail_content_type is None && self.thumbnail_description is None
        &&& self.thumbnail_flags == 0
        &&& self.image_url is None && self.image_proxy_url is None
        &&& self.image_width is None && self.image_height is None
        &&& self.image_content_type is None && self.image_description is None
        &&& self.image_flags == 0
        &&& self.gifv_image_url is None && self.gifv_image_proxy_url is None
        &&& self.video_url is None && self.video_proxy_url is None
        &&& self.video_width is None && self.video_height is None
        &&& self.video_content_type is None && self.video_description is None
        &&& self.video_flags == 0
    }

    /// An embed with nothing set.
    pub fn test() -> (e: Self)
        ensures
            e.is_empty_embed(),
    {
        EmbedInfo {
            kind: None,
            flags: 0,
            color: None,
            provider_name: None,
            provider_url: None,
            author_name: None,
            author_url: None,
            title: None,
            description: None,
            timestamp: None,
            fields: Vec::new(),
            footer_text: None,
            url: None,
            thumbnail_url: None,
            thumbnail_proxy_url: None,
            thumbnail_width: None,
            thumbnail_height: None,
            thumbnail_content_type: None,
            thumbnail_description: None,
            thumbnail_flags: 0,
            image_url: None,
            image_proxy_url: None,
            image_width: None,
            image_height: None,
            image_content_type: None,
            image_description: None,
            image_flags: 0,
            gifv_image_url: None,
            gifv_image_proxy_url: None,
            video_url: None,
            video_proxy_url: None,
            video_width: None,
            video_height: None,
            video_content_type: None,
            video_description: None,
            video_flags: 0,
        }
    }
}

impl Default for EmbedInfo {
    fn default() -> (e: Self)
        ensures
            e.is_empty_embed(),
    {
        EmbedInfo::test()
    }
}

/// The accent an embed's previews carry: its colour, or red.
pub open spec fn embed_accent(e: EmbedInfo) -> Option<u32> {
    Some(
        match e.color {
            Some(c) => c,
            None => DEFAULT_EMBED_ACCENT,
        },
    )
}

/// The embed is a video: it has a video, or says it is one.
pub open spec fn embed_has_video(e: EmbedInfo) -> bool {
    ||| e.video_url is Some
    ||| e.video_proxy_url is Some
    ||| e.kind matches Some(k) && (k@ == "video"@ || k@ == "gifv"@)
}

pub open spec fn embed_image_preview(e: EmbedInfo, url: Seq<char>, play: bool) -> PreviewView {
    PreviewView {
        url,
        proxy_url: e.image_proxy_url.deep_view(),
        filename: "embed-image"@,
        width: e.image_width,
        height: e.image_height,
        accent_color: embed_accent(e),
        animated: media_animated(e.image_flags, Seq::empty(), url),
        proxy_preview_only: false,
        show_play_marker: play,
    }
}

pub open spec fn embed_thumbnail_preview(e: EmbedInfo, url: Seq<char>, play: bool) -> PreviewView {
    PreviewView {
        url,
        proxy_url: e.thumbnail_proxy_url.deep_view(),
        filename: "embed-thumbnail"@,
        width: e.thumbnail_width,
        height: e.thumbnail_height,
        accent_color: embed_accent(e),
        animated: media_animated(e.thumbnail_flags, Seq::empty(), url),
        proxy_preview_only: false,
        show_play_marker: play,
    }
}

/// What an embed previews, in order. A `gifv` rendition wins outright. A
/// video shows one still - its thumbnail, else its image, else its proxied
/// video - with a play marker. Anything else shows its image, then its
/// thumbnail when that is a different URL.
pub open spec fn embed_previews(e: EmbedInfo) -> Seq<PreviewView> {
    match e.gifv_image_url {
        Some(url) => seq![PreviewView {
            url: url@,
            proxy_url: e.gifv_image_proxy_url.deep_view(),
            filename: "embed-gifv"@,
            width: or_else(e.image_width, e.thumbnail_width),
            height: or_else(e.image_height, e.thumbnail_height),
            accent_color: embed_accent(e),
            animated: true,
            proxy_preview_only: false,
            show_play_marker: false,
        }],
        None => if embed_has_video(e) && e.thumbnail_url is Some {
            seq![embed_thumbnail_preview(e, e.thumbnail_url.unwrap()@, true)]
        } else if embed_has_video(e) && e.image_url is Some {
            seq![embed_image_preview(e, e.image_url.unwrap()@, true)]
        } else if embed_has_video(e) && e.video_proxy_url is Some {
            seq![PreviewView {
                url: e.video_proxy_url.unwrap()@,
                proxy_url: Some(e.video_proxy_url.unwrap()@),
                filename: "embed-video"@,
                width: e.video_width,
                height: e.video_height,
                accent_color: embed_accent(e),
                animated: false,
                proxy_preview_only: true,
                show_play_marker: true,
            }]
        } else {
            let images: Seq<PreviewView> = match e.image_url {
                Some(u) => seq![embed_image_preview(e, u@, false)],
                None => Seq::empty(),
            };
            match e.thumbnail_url {
                Some(t) => if e.image_url matches Some(i) && i@ == t@ {
                    images
                } else {
                    images.push(embed_thumbnail_preview(e, t@, false))
                },
                None => images,
            }
        },
    }
}

fn opt_str(o: &Option<String>) -> (r: Option<&str>)
    ensures
        r.deep_view() == o.deep_view(),
{
    match o {
        Some(s) => Some(s.as_str()),
        None => None,
    }
}

impl EmbedInfo {
    fn accent(&self) -> (a: Option<u32>)
        ensures
            a == embed_accent(*self),
    {
        Some(
            match self.color {
                Some(c) => c,
                None => DEFAULT_EMBED_ACCENT,
            },
        )
    }

    fn has_video(&self) -> (b: bool)
        ensures
            b == embed_has_video(*self),
    {
        self.video_url.is_some() || self.video_proxy_url.is_some() || match &self.kind {
            Some(k) => same_text(k.as_str(), "video") || same_text(k.as_str(), "gifv"),
            None => false,
        }
    }

    fn image_preview<'a>(&'a self, url: &'a str, play: bool) -> (p: InlinePreviewInfo<'a>)
        ensures
            p@ == embed_image_preview(*self, url@, play),
    {
        proof { reveal_strlit(""); }
        InlinePreviewInfo {
            url,
            proxy_url: opt_str(&self.image_proxy_url),
            filename: "embed-image",
            width: self.image_width,
            height: self.image_height,
            accent_color: self.accent(),
            animated: media_is_animated(self.image_flags, "", url),
            proxy_preview_only: false,
            show_play_marker: play,
        }
    }

    fn thumbnail_preview<'a>(&'a self, url: &'a str, play: bool) -> (p: InlinePreviewInfo<'a>)
        ensures
            p@ == embed_thumbnail_preview(*self, url@, play),
    {
        proof { reveal_strlit(""); }
        InlinePreviewInfo {
            url,
            proxy_url: opt_str(&self.thumbnail_proxy_url),
            filename: "embed-thumbnail",
            width: self.thumbnail_width,
            height: self.thumbnail_height,
            accent_color: self.accent(),
            animated: media_is_animated(self.thumbnail_flags, "", url),
            proxy_preview_only: false,
            show_play_marker: play,
        }
    }

    /// The first thing the embed previews, if any.
    pub fn inline_preview_info(&self) -> (p: Option<InlinePreviewInfo<'_>>)
        ensures
            preview_opt_view(p) == if embed_previews(*self).len() > 0 {
                Some(embed_previews(*self)[0])
            } else {
                None
            },
    {
        let previews = self.inline_previews();
        if previews.len() > 0 {
            Some(previews[0])
        } else {
            None
        }
    }

    /// Everything the embed previews, in order.
    pub fn inline_previews(&self) -> (r: Vec<InlinePreviewInfo<'_>>)
        ensures
            previews_view(r@) == embed_previews(*self),
    {
        proof {
            reveal_strlit("");
        }
        if let Some(url) = &self.gifv_image_url {
            let p = InlinePreviewInfo {
                url: url.as_str(),
                proxy_url: opt_str(&self.gifv_image_proxy_url),
                filename: "embed-gifv",
                width: first_of(self.image_width, self.thumbnail_width),
                height: first_of(self.image_height, self.thumbnail_height),
                accent_color: self.accent(),
                animated: true,
                proxy_preview_only: false,
                show_play_marker: false,
            };
            let r = vec![p];
            assert(previews_view(r@) =~= seq![p@]);
            return r;
        }
        if self.has_video() {
            if let Some(url) = &self.thumbnail_url {
                let r = vec![self.thumbnail_preview(url.as_str(), true)];
                assert(previews_view(r@) =~= seq![r@[0]@]);
                return r;
            }
            if let Some(url) = &self.image_url {
                let r = vec![self.image_preview(url.as_str(), true)];
                assert(previews_view(r@) =~= seq![r@[0]@]);
                return r;
            }
            if let Some(url) = &self.video_proxy_url {
                let p = InlinePreviewInfo {
                    url: url.as_str(),
                    proxy_url: Some(url.as_str()),
                    filename: "embed-video",
                    width: self.video_width,
                    height: self.video_height,
                    accent_color: self.accent(),
                    animated: false,
                    proxy_preview_only: true,
                    show_play_marker: true,
                };
                let r = vec![p];
                assert(previews_view(r@) =~= seq![p@]);
                return r;
            }
        }
        let mut previews: Vec<InlinePreviewInfo<'_>> = Vec::new();
        if let Some(url) = &self.image_url {
            previews.push(self.image_preview(url.as_str(), false));
        }
        let ghost images = previews_view(previews@);
        assert(images =~= match self.image_url {
            Some(u) => seq![embed_image_preview(*self, u@, false)],
            None => Seq::<PreviewView>::empty(),
        });
        if let Some(url) = &self.thumbnail_url {
            let same = match &self.image_url {
                Some(i) => same_text(i.as_str(), url.as_str()),
                None => false,
            };
            if !same {
                previews.push(self.thumbnail_preview(url.as_str(), false));
                assert(previews_view(previews@) =~= images.push(embed_thumbnail_preview(*self, url@, false)));
            }
        }
        previews
    }
}

// ---------------------------------------------------------------------------
// Component media
// ---------------------------------------------------------------------------

/// Media referenced from a message component.
#[derive(Clone, Debug, PartialEq, Eq)]
pub struct ComponentMediaInfo {
    pub url: String,
    pub proxy_url: Option<String>,
    pub content_type: Option<String>,
    pub width: Option<u64>,
    pub height: Option<u64>,
    pub flags: u64,
}

impl Default for ComponentMediaInfo {
    fn default() -> (m: Self)
        ensures
            m.url@.len() == 0,
            m.proxy_url is None,
            m.content_type is None,
            m.width is None,
            m.height is None,
            m.flags == 0,
    {
        ComponentMediaInfo {
            url: String::new(),
            proxy_url: None,
            content_type: None,
            width: None,
            height: None,
            flags: 0,
        }
    }
}

pub open spec fn strip_prefix_seq(s: Seq<char>, p: Seq<char>) -> Option<Seq<char>> {
    if has_prefix(s, p) { Some(s.skip(p.len() as int)) } else { None }
}

/// The attachment a component names with an `attachment://` URL.
pub open spec fn media_attachment_filename(m: ComponentMediaInfo) -> Option<Seq<char>> {
    strip_prefix_seq(m.url@, "attachment://"@)
}

/// A name to show: the attachment's name, else the last segment of the URL's
/// path when it is not empty, else "component-media".
pub open spec fn media_display_filename(m: ComponentMediaInfo) -> Seq<char> {
    match media_attachment_filename(m) {
        Some(f) => f,
        None => {
            let last = after_last(before_first(m.url@, '?'), '/');
            if last.len() > 0 { last } else { "component-media"@ }
        },
    }
}

pub open spec fn component_media_type(m: ComponentMediaInfo) -> Option<AttachmentMediaType> {
    media_type_of(m.content_type.deep_view(), media_display_filename(m))
}

impl ComponentMediaInfo {
    pub fn attachment_filename(&self) -> (f: Option<&str>)
        ensures
            f.deep_view() == media_attachment_filename(*self),
    {
        strip_prefix(self.url.as_str(), "attachment://")
    }

    pub fn display_filename(&self) -> (f: &str)
        ensures
            f@ == media_display_filename(*self),
    {
        match self.attachment_filename() {
            Some(f) => f,
            None => {
                let path = before_first_char(self.url.as_str(), '?');
                let last = after_last_char(path, '/');
                if last.unicode_len() > 0 {
                    last
                } else {
                    "component-media"
                }
            },
        }
    }

    pub fn media_type(&self) -> (t: Option<AttachmentMediaType>)
        ensures
            t == component_media_type(*self),
    {
        media_type_for(opt_str(&self.content_type), self.display_filename())
    }
}

// ---------------------------------------------------------------------------
// People, reactions and references
// ---------------------------------------------------------------------------

#[derive(Clone, Debug, PartialEq, Eq)]
pub struct MentionInfo {
    pub user_id: Id<UserMarker>,
    /// Per-server nickname carried by this message's mention payload.
    pub guild_nick: Option<String>,
    pub display_name: String,
}

impl MentionInfo {
    pub fn test(user_id: Id<UserMarker>, display_name: &str) -> (m: Self)
        ensures
            m.user_id == user_id,
            m.guild_nick is None,
            m.display_name@ == display_name@,
    {
        MentionInfo { user_id, guild_nick: None, display_name: owned(display_name) }
    }
}

/// The emoji of a reaction: a Unicode one, or a server's custom one.
#[derive(Clone, Debug, PartialEq, Eq)]
pub enum ReactionEmoji {
    Unicode(String),
    Custom { id: Id<EmojiMarker>, name: Option<String>, animated: bool },
}

#[derive(Clone, Debug, PartialEq, Eq)]
pub struct ReactionInfo {
    pub emoji: ReactionEmoji,
    pub count: u64,
    pub me: bool,
}

impl ReactionInfo {
    /// One reaction of `emoji`, not by this account.
    pub fn test(emoji: ReactionEmoji) -> (r: Self)
        ensures
            r.emoji == emoji,
            r.count == 1,
            !r.me,
    {
        ReactionInfo { emoji, count: 1, me: false }
    }
}

#[derive(Clone, Debug, PartialEq, Eq)]
pub struct ReactionUserInfo {
    pub user_id: Id<UserMarker>,
    pub display_name: String,
}

impl ReactionUserInfo {
    pub fn test(user_id: Id<UserMarker>, display_name: &str) -> (r: Self)
        ensures
            r.user_id == user_id,
            r.display_name@ == display_name@,
    {
        ReactionUserInfo { user_id, display_name: owned(display_name) }
    }
}

#[derive(Clone, Debug, PartialEq, Eq)]
pub struct ReplyInfo {
    pub author_id: Option<Id<UserMarker>>,
    pub author: String,
    pub content: Option<String>,
    pub sticker_names: Vec<String>,
    /// The same stickers with their ids, so they can be rendered.
    pub stickers: Vec<StickerInfo>,
    pub mentions: Vec<MentionInfo>,
}

impl ReplyInfo {
    pub fn test(author: &str) -> (r: Self)
        ensures
            r.author_id is None,
            r.author@ == author@,
            r.content is None,
            r.sticker_names@.len() == 0,
            r.stickers@.len() == 0,
            r.mentions@.len() == 0,
    {
        ReplyInfo {
            author_id: None,
            author: owned(author),
            content: None,
            sticker_names: Vec::new(),
            stickers: Vec::new(),
            mentions: Vec::new(),
        }
    }
}

#[derive(Clone, Debug, PartialEq, Eq)]
pub struct MessageInteractionInfo {
    pub user_id: Option<Id<UserMarker>>,
    pub user: String,
    pub command_name: Option<String>,
}

impl MessageInteractionInfo {
    pub fn test(user: &str) -> (i: Self)
        ensures
            i.user_id is None,
            i.user@ == user@,
            i.command_name is None,
    {
        MessageInteractionInfo { user_id: None, user: owned(user), command_name: None }
    }
}

#[derive(Clone, Debug, PartialEq, Eq)]
pub struct MessageReferenceInfo {
    pub guild_id: Option<Id<GuildMarker>>,
    pub channel_id: Option<Id<ChannelMarker>>,
    pub message_id: Option<Id<MessageMarker>>,
}

impl MessageReferenceInfo {
    pub fn test(message_id: Id<MessageMarker>) -> (r: Self)
        ensures
            r.guild_id is None,
            r.channel_id is None,
            r.message_id == Some(message_id),
    {
        MessageReferenceInfo { guild_id: None, channel_id: None, message_id: Some(message_id) }
    }
}

#[derive(Clone, Debug, PartialEq, Eq)]
pub struct PollInfo {
    pub question: String,
    pub answers: Vec<PollAnswerInfo>,
    pub allow_multiselect: bool,
    pub results_finalized: Option<bool>,
    pub total_votes: Option<u64>,
}

impl PollInfo {
    pub fn test(question: &str) -> (p: Self)
        ensures
            p.question@ == question@,
            p.answers@.len() == 0,
            !p.allow_multiselect,
            p.results_finalized is None,
            p.total_votes is None,
    {
        PollInfo {
            question: owned(question),
            answers: Vec::new(),
            allow_multiselect: false,
            results_finalized: None,
            total_votes: None,
        }
    }
}

#[derive(Clone, Debug, PartialEq, Eq)]
pub struct PollAnswerInfo {
    pub answer_id: u8,
    pub text: String,
    pub vote_count: Option<u64>,
    pub me_voted: bool,
}

impl PollAnswerInfo {
    pub fn test(answer_id: u8, text: &str) -> (a: Self)
        ensures
            a.answer_id == answer_id,
            a.text@ == text@,
            a.vote_count is None,
            !a.me_voted,
    {
        PollAnswerInfo { answer_id, text: owned(text), vote_count: None, me_voted: false }
    }
}


// ---------------------------------------------------------------------------
// Messages
// ---------------------------------------------------------------------------

/// A message forwarded into another channel, as it looked when forwarded.
#[derive(Debug, PartialEq, Eq)]
pub struct MessageSnapshotInfo {
    pub content: Option<String>,
    pub sticker_names: Vec<String>,
    /// The same stickers with their ids, so they can be rendered.
    pub stickers: Vec<StickerInfo>,
    pub mentions: Vec<MentionInfo>,
    pub flags: u64,
    pub attachments: Vec<AttachmentInfo>,
    pub embeds: Vec<EmbedInfo>,
    pub components: Vec<MessageComponentInfo>,
    pub source_channel_id: Option<Id<ChannelMarker>>,
    pub timestamp: Option<String>,
}

impl MessageSnapshotInfo {
    pub fn test() -> (m: Self)
        ensures
            m.content is None,
            m.sticker_names@.len() == 0,
            m.stickers@.len() == 0,
            m.mentions@.len() == 0,
            m.flags == 0,
            m.attachments@.len() == 0,
            m.embeds@.len() == 0,
            m.components@.len() == 0,
            m.source_channel_id is None,
            m.timestamp is None,
    {
        MessageSnapshotInfo {
            content: None,
            sticker_names: Vec::new(),
            stickers: Vec::new(),
            mentions: Vec::new(),
            flags: 0,
            attachments: Vec::new(),
            embeds: Vec::new(),
            components: Vec::new(),
            source_channel_id: None,
            timestamp: None,
        }
    }
}

#[derive(Debug, PartialEq, Eq)]
pub struct MessageInfo {
    pub guild_id: Option<Id<GuildMarker>>,
    pub channel_id: Id<ChannelMarker>,
    pub message_id: Id<MessageMarker>,
    pub nonce: Option<Id<MessageMarker>>,
    pub webhook_id: Option<Id<WebhookMarker>>,
    pub author_id: Id<UserMarker>,
    pub author: String,
    pub author_avatar_url: Option<String>,
    pub author_is_bot: bool,
    pub author_role_ids: Vec<Id<RoleMarker>>,
    pub author_role_ids_present: bool,
    pub message_kind: MessageKind,
    pub interaction: Option<MessageInteractionInfo>,
    pub reference: Option<MessageReferenceInfo>,
    pub reply: Option<ReplyInfo>,
    pub poll: Option<PollInfo>,
    pub pinned: bool,
    pub reactions: Vec<ReactionInfo>,
    pub content: Option<String>,
    pub sticker_names: Vec<String>,
    /// The same stickers with their ids, so they can be rendered.
    pub stickers: Vec<StickerInfo>,
    pub mentions: Vec<MentionInfo>,
    pub mention_everyone: bool,
    pub mention_roles: Vec<Id<RoleMarker>>,
    pub flags: u64,
    pub attachments: Vec<AttachmentInfo>,
    pub embeds: Vec<EmbedInfo>,
    pub components: Vec<MessageComponentInfo>,
    pub forwarded_snapshots: Vec<MessageSnapshotInfo>,
    pub edited_timestamp: Option<String>,
}

impl MessageInfo {
    /// Everything but the two ids is empty, absent, false or zero, and the
    /// kind is a regular message.
    pub open spec fn is_bare(&self) -> bool {
        &&& self.guild_id is None && self.nonce is None && self.webhook_id is None
        &&& self.author@.len() == 0 && self.author_avatar_url is None && !self.author_is_bot
        &&& self.author_role_ids@.len() == 0 && !self.author_role_ids_present
        &&& self.message_kind.spec_code() == 0
        &&& self.interaction is None && self.reference is None && self.reply is None && self.poll is None
        &&& !self.pinned && self.reactions@.len() == 0 && self.content is None
        &&& self.sticker_names@.len() == 0 && self.stickers@.len() == 0 && self.mentions@.len() == 0
        &&& !self.mention_everyone && self.mention_roles@.len() == 0 && self.flags == 0
        &&& self.attachments@.len() == 0 && self.embeds@.len() == 0 && self.components@.len() == 0
        &&& self.forwarded_snapshots@.len() == 0 && self.edited_timestamp is None
    }

    /// A bare message with the given ids, the author id being 1.
    pub fn test(channel_id: Id<ChannelMarker>, message_id: Id<MessageMarker>) -> (m: Self)
        ensures
            m.is_bare(),
            m.channel_id == channel_id,
            m.message_id == message_id,
            m.author_id@ == 1,
    {
        MessageInfo {
            guild_id: None,
            channel_id,
            message_id,
            nonce: None,
            webhook_id: None,
            author_id: Id::new(1),
            author: String::new(),
            author_avatar_url: None,
            author_is_bot: false,
            author_role_ids: Vec::new(),
            author_role_ids_present: false,
            message_kind: MessageKind::default(),
            interaction: None,
            reference: None,
            reply: None,
            poll: None,
            pinned: false,
            reactions: Vec::new(),
            content: None,
            sticker_names: Vec::new(),
            stickers: Vec::new(),
            mentions: Vec::new(),
            mention_everyone: false,
            mention_roles: Vec::new(),
            flags: 0,
            attachments: Vec::new(),
            embeds: Vec::new(),
            components: Vec::new(),
            forwarded_snapshots: Vec::new(),
            edited_timestamp: None,
        }
    }
}

impl Default for MessageInfo {
    fn default() -> (m: Self)
        ensures
            m.is_bare(),
            m.channel_id@ == 1,
            m.message_id@ == 1,
            m.author_id@ == 1,
    {
        MessageInfo::test(Id::new(1), Id::new(1))
    }
}

/// The text a compact surface shows for a message: a components-V2 message
/// carries it in its component tree; any other shows its content when that
/// is not blank, else the tree's first text.
pub open spec fn message_summary(m: MessageInfo) -> Option<Seq<char>> {
    if m.flags & MESSAGE_FLAG_IS_COMPONENTS_V2 != 0 {
        first_text_from(m.components@, 0)
    } else {
        or_else(nonblank(m.content), first_text_from(m.components@, 0))
    }
}

impl MessageInfo {
    pub fn summary_text(&self) -> (s: Option<&str>)
        ensures
            s.deep_view() == message_summary(*self),
    {
        let content = match &self.content {
            Some(c) => if !crate::media::blank(c.as_str()) { Some(c.as_str()) } else { None },
            None => None,
        };
        if self.flags & MESSAGE_FLAG_IS_COMPONENTS_V2 != 0 {
            MessageComponentInfo::first_text(self.components.as_slice())
        } else {
            match content {
                Some(c) => Some(c),
                None => MessageComponentInfo::first_text(self.components.as_slice()),
            }
        }
    }
}


/// What an attachment's content type makes of its preview, whatever its
/// file name: a video with a proxy previews the proxy's still frame, marked
/// as playable; an image with a URL previews that URL, unmarked; audio
/// never previews.
pub proof fn law_content_type_decides_the_preview(a: AttachmentInfo)
    ensures
        (a.content_type matches Some(ct) && has_prefix(ct@, "video/"@)) && a.proxy_url@.len() > 0 ==> (attachment_preview(a) matches Some(p)
            && p.url == a.proxy_url@ && p.show_play_marker && p.proxy_preview_only),
        (a.content_type matches Some(ct) && has_prefix(ct@, "image/"@)) && a.url@.len() > 0 ==> (attachment_preview(a) matches Some(p)
            && p.url == a.url@ && !p.show_play_marker && !p.proxy_preview_only),
        (a.content_type matches Some(ct) && has_prefix(ct@, "audio/"@)) ==> attachment_preview(a) is None,
{
    if let Some(ct) = a.content_type {
        law_content_type_decides_the_media_type(ct@, a.filename@);
    }
}

} // verus!
