//! Message components: the tree a components-V2 message carries its content
//! in, and what text and previews can be read off it.
use vstd::prelude::*;

use crate::media::{blank, component_media_animated, component_media_is_animated, is_blank, AttachmentMediaType};
use crate::message::{
    attachment_preview, component_media_type, media_attachment_filename, media_display_filename, or_else,
    preview_opt_view, previews_view, AttachmentInfo, ComponentMediaInfo, InlinePreviewInfo, PreviewView,
};
use crate::text::{join_seq, join_strs, same_text, str_views};

verus! {

#[derive(Clone, Debug, PartialEq, Eq)]
pub struct ComponentMediaItemInfo {
    pub media: ComponentMediaInfo,
    pub description: Option<String>,
    pub spoiler: bool,
}

#[derive(Clone, Copy, Debug, PartialEq, Eq, Structural)]
pub enum ComponentSelectKind {
    String,
    User,
    Role,
    Mentionable,
    Channel,
}

#[derive(Clone, Debug, PartialEq, Eq)]
pub struct ComponentSelectOptionInfo {
    pub label: String,
    pub description: Option<String>,
    pub emoji: Option<String>,
    pub selected: bool,
}

/// One node of a message's component tree.
#[derive(Debug, PartialEq, Eq)]
pub enum MessageComponentInfo {
    ActionRow { components: Vec<MessageComponentInfo> },
    Button { label: Option<String>, emoji: Option<String>, url: Option<String>, disabled: bool },
    Select {
        kind: ComponentSelectKind,
        placeholder: Option<String>,
        options: Vec<ComponentSelectOptionInfo>,
        disabled: bool,
    },
    Section { components: Vec<MessageComponentInfo>, accessory: Option<Box<MessageComponentInfo>> },
    TextDisplay { content: String },
    Thumbnail { media: ComponentMediaInfo, description: Option<String>, spoiler: bool },
    MediaGallery { items: Vec<ComponentMediaItemInfo> },
    File { file: ComponentMediaInfo, name: Option<String>, size: Option<u64>, spoiler: bool },
    Separator { divider: bool, spacing: u8 },
    Container { components: Vec<MessageComponentInfo>, accent_color: Option<u32>, spoiler: bool },
    Unknown { kind: u64 },
}

// ---------------------------------------------------------------------------
// Previews of component media
// ---------------------------------------------------------------------------

/// The first attachment at or after `i` with the given file name.
pub open spec fn first_named_from(atts: Seq<AttachmentInfo>, f: Seq<char>, i: int) -> Option<int>
    decreases atts.len() - i,
{
    if i < 0 || i >= atts.len() {
        None
    } else if atts[i].filename@ == f {
        Some(i)
    } else {
        first_named_from(atts, f, i + 1)
    }
}

pub open spec fn with_accent(p: Option<PreviewView>, accent: Option<u32>) -> Option<PreviewView> {
    match p {
        Some(v) => Some(PreviewView {
            url: v.url,
            proxy_url: v.proxy_url,
            filename: v.filename,
            width: v.width,
            height: v.height,
            accent_color: accent,
            animated: v.animated,
            proxy_preview_only: v.proxy_preview_only,
            show_play_marker: v.show_play_marker,
        }),
        None => None,
    }
}

/// What a piece of component media previews as. Media naming an attached
/// file previews as that attachment does, in the component's accent. Other
/// media previews when it has a URL: a video through its proxy when it has
/// one, with a play marker; an image as itself.
pub open spec fn component_preview(m: ComponentMediaInfo, atts: Seq<AttachmentInfo>, accent: Option<u32>) -> Option<PreviewView> {
    let named = match media_attachment_filename(m) {
        Some(f) => first_named_from(atts, f, 0),
        None => None,
    };
    match named {
        Some(i) => with_accent(attachment_preview(atts[i]), accent),
        None => {
            let filename = media_display_filename(m);
            let proxy = m.proxy_url.deep_view();
            match component_media_type(m) {
                Some(AttachmentMediaType::Video) => if m.url@.len() > 0 {
                    Some(PreviewView {
                        url: match proxy {
                            Some(p) => p,
                            None => m.url@,
                        },
                        proxy_url: proxy,
                        filename,
                        width: m.width,
                        height: m.height,
                        accent_color: accent,
                        animated: false,
                        proxy_preview_only: proxy is Some,
                        show_play_marker: true,
                    })
                } else {
                    None
                },
                Some(AttachmentMediaType::Image) => if m.url@.len() > 0 {
                    Some(PreviewView {
                        url: m.url@,
                        proxy_url: proxy,
                        filename,
                        width: m.width,
                        height: m.height,
                        accent_color: accent,
                        animated: component_media_animated(m.flags, filename, m.url@),
                        proxy_preview_only: false,
                        show_play_marker: false,
                    })
                } else {
                    None
                },
                _ => None,
            }
        },
    }
}

fn find_attachment(atts: &[AttachmentInfo], f: &str) -> (r: Option<usize>)
    ensures
        match r {
            Some(i) => first_named_from(atts@, f@, 0) == Some(i as int),
            None => first_named_from(atts@, f@, 0) is None,
        },
        r matches Some(i) ==> i < atts@.len(),
{
    let n = atts.len();
    let mut i: usize = 0;
    while i < n
        invariant
            n == atts@.len(),
            i <= n,
            first_named_from(atts@, f@, 0) == first_named_from(atts@, f@, i as int),
        decreases n - i,
    {
        if same_text(atts[i].filename.as_str(), f) {
            return Some(i);
        }
        i = i + 1;
    }
    None
}

fn opt_str(o: &Option<String>) -> (r: Option<&str>)
    ensures
        r.deep_view() == o.deep_view(),
{
    match o {
        Some(s) => Some(s.as_str()),
        None => None,
    }
}

impl ComponentMediaInfo {
    pub fn inline_preview_info<'a>(&'a self, attachments: &'a [AttachmentInfo], accent_color: Option<u32>) -> (p: Option<InlinePreviewInfo<'a>>)
        ensures
            preview_opt_view(p) == component_preview(*self, attachments@, accent_color),
    {
        if let Some(filename) = self.attachment_filename() {
            if let Some(i) = find_attachment(attachments, filename) {
                return match attachments[i].inline_preview_info() {
                    Some(preview) => Some(InlinePreviewInfo { accent_color, ..preview }),
                    None => None,
                };
            }
        }
        let media_type = self.media_type();
        let filename = self.display_filename();
        if self.url.unicode_len() == 0 {
            return None;
        }
        let url = self.url.as_str();
        let proxy_url = opt_str(&self.proxy_url);
        match media_type {
            Some(AttachmentMediaType::Video) => Some(InlinePreviewInfo {
                url: match proxy_url {
                    Some(p) => p,
                    None => url,
                },
                proxy_url,
                filename,
                width: self.width,
                height: self.height,
                accent_color,
                animated: false,
                proxy_preview_only: proxy_url.is_some(),
                show_play_marker: true,
            }),
            Some(AttachmentMediaType::Image) => Some(InlinePreviewInfo {
                url,
                proxy_url,
                filename,
                width: self.width,
                height: self.height,
                accent_color,
                animated: component_media_is_animated(self.flags, filename, url),
                proxy_preview_only: false,
                show_play_marker: false,
            }),
            _ => None,
        }
    }
}

// ---------------------------------------------------------------------------
// The first text of a tree
// ---------------------------------------------------------------------------

pub open spec fn nonblank(o: Option<String>) -> Option<Seq<char>> {
    match o {
        Some(s) => if !is_blank(s@) { Some(s@) } else { None },
        None => None,
    }
}

pub open spec fn first_nonblank_label(opts: Seq<ComponentSelectOptionInfo>, i: int) -> Option<Seq<char>>
    decreases opts.len() - i,
{
    if i < 0 || i >= opts.len() {
        None
    } else if !is_blank(opts[i].label@) {
        Some(opts[i].label@)
    } else {
        first_nonblank_label(opts, i + 1)
    }
}

pub open spec fn first_nonblank_description(items: Seq<ComponentMediaItemInfo>, i: int) -> Option<Seq<char>>
    decreases items.len() - i,
{
    if i < 0 || i >= items.len() {
        None
    } else if nonblank(items[i].description) is Some {
        nonblank(items[i].description)
    } else {
        first_nonblank_description(items, i + 1)
    }
}

/// The first text any component from `i` on offers.
pub open spec fn first_text_from(cs: Seq<MessageComponentInfo>, i: int) -> Option<Seq<char>>
    decreases cs, cs.len() - i,
{
    if i < 0 || i >= cs.len() {
        None
    } else {
        match component_first_text(cs[i]) {
            Some(t) => Some(t),
            None => first_text_from(cs, i + 1),
        }
    }
}

/// The text a component offers a compact surface: a label, placeholder,
/// text, description or file name that is not blank.
pub open spec fn component_first_text(c: MessageComponentInfo) -> Option<Seq<char>>
    decreases c, 0int,
{
    match c {
        MessageComponentInfo::ActionRow { components } => first_text_from(components@, 0),
        MessageComponentInfo::Container { components, .. } => first_text_from(components@, 0),
        MessageComponentInfo::Button { label, emoji, .. } => or_else(nonblank(label), nonblank(emoji)),
        MessageComponentInfo::Select { placeholder, options, .. } => or_else(
            nonblank(placeholder),
            first_nonblank_label(options@, 0),
        ),
        MessageComponentInfo::Section { components, accessory } => match first_text_from(components@, 0) {
            Some(t) => Some(t),
            None => match accessory {
                Some(a) => component_first_text(*a),
                None => None,
            },
        },
        MessageComponentInfo::TextDisplay { content } => if !is_blank(content@) { Some(content@) } else { None },
        MessageComponentInfo::Thumbnail { media, description, .. } => Some(
            match nonblank(description) {
                Some(d) => d,
                None => media_display_filename(media),
            },
        ),
        MessageComponentInfo::MediaGallery { items } => match first_nonblank_description(items@, 0) {
            Some(d) => Some(d),
            None => if items@.len() > 0 { Some(media_display_filename(items@[0].media)) } else { None },
        },
        MessageComponentInfo::File { file, name, .. } => Some(
            match nonblank(name) {
                Some(n) => n,
                None => media_display_filename(file),
            },
        ),
        MessageComponentInfo::Separator { .. } => None,
        MessageComponentInfo::Unknown { .. } => None,
    }
}

fn nonblank_str(o: &Option<String>) -> (r: Option<&str>)
    ensures
        r.deep_view() == nonblank(*o),
{
    match o {
        Some(s) => if !blank(s.as_str()) { Some(s.as_str()) } else { None },
        None => None,
    }
}

impl MessageComponentInfo {
    /// The first text any of `components` offers.
    pub fn first_text(components: &[MessageComponentInfo]) -> (r: Option<&str>)
        ensures
            r.deep_view() == first_text_from(components@, 0),
        decreases components@,
    {
        let n = components.len();
        let mut i: usize = 0;
        while i < n
            invariant
                n == components@.len(),
                i <= n,
                first_text_from(components@, 0) == first_text_from(components@, i as int),
            decreases n - i,
        {
            assert(decreases_to!(components@ => components@[i as int]));
            if let Some(t) = components[i].first_text_value() {
                return Some(t);
            }
            i = i + 1;
        }
        None
    }

    /// The text this component offers.
    pub fn first_text_value(&self) -> (r: Option<&str>)
        ensures
            r.deep_view() == component_first_text(*self),
        decreases self,
    {
        match self {
            MessageComponentInfo::ActionRow { components } => {
                assert(decreases_to!(*self => components@));
                Self::first_text(components.as_slice())
            },
            MessageComponentInfo::Container { components, .. } => {
                assert(decreases_to!(*self => components@));
                Self::first_text(components.as_slice())
            },
            MessageComponentInfo::Button { label, emoji, .. } => match nonblank_str(label) {
                Some(l) => Some(l),
                None => nonblank_str(emoji),
            },
            MessageComponentInfo::Select { placeholder, options, .. } => match nonblank_str(placeholder) {
                Some(p) => Some(p),
                None => {
                    let n = options.len();
                    let mut i: usize = 0;
                    while i < n
                        invariant
                            n == options@.len(),
                            i <= n,
                            first_nonblank_label(options@, 0) == first_nonblank_label(options@, i as int),
                            component_first_text(*self) == first_nonblank_label(options@, 0),
                        decreases n - i,
                    {
                        if !blank(options[i].label.as_str()) {
                            return Some(options[i].label.as_str());
                        }
                        i = i + 1;
                    }
                    None
                },
            },
            MessageComponentInfo::Section { components, accessory } => {
                assert(decreases_to!(*self => components@));
                match Self::first_text(components.as_slice()) {
                    Some(t) => Some(t),
                    None => match accessory {
                        Some(a) => {
                            assert(decreases_to!(*self => **a));
                            a.first_text_value()
                        },
                        None => None,
                    },
                }
            },
            MessageComponentInfo::TextDisplay { content } => if !blank(content.as_str()) {
                Some(content.as_str())
            } else {
                None
            },
            MessageComponentInfo::Thumbnail { media, description, .. } => match nonblank_str(description) {
                Some(d) => Some(d),
                None => Some(media.display_filename()),
            },
            MessageComponentInfo::MediaGallery { items } => {
                let n = items.len();
                let mut i: usize = 0;
                while i < n
                    invariant
                        n == items@.len(),
                        i <= n,
                        first_nonblank_description(items@, 0) == first_nonblank_description(items@, i as int),
                        *self == (MessageComponentInfo::MediaGallery { items: *items }),
                    decreases n - i,
                {
                    if let Some(d) = nonblank_str(&items[i].description) {
                        return Some(d);
                    }
                    i = i + 1;
                }
                if n > 0 {
                    Some(items[0].media.display_filename())
                } else {
                    None
                }
            },
            MessageComponentInfo::File { file, name, .. } => match nonblank_str(name) {
                Some(n) => Some(n),
                None => Some(file.display_filename()),
            },
            MessageComponentInfo::Separator { .. } => None,
            MessageComponentInfo::Unknown { .. } => None,
        }
    }
}


// ---------------------------------------------------------------------------
// Text displays
// ---------------------------------------------------------------------------

/// The non-empty text displays from `i` on, depth first through rows,
/// containers and sections (not section accessories).
pub open spec fn text_parts_from(cs: Seq<MessageComponentInfo>, i: int) -> Seq<Seq<char>>
    decreases cs, cs.len() - i,
{
    if i < 0 || i >= cs.len() {
        Seq::empty()
    } else {
        component_text_parts(cs[i]) + text_parts_from(cs, i + 1)
    }
}

pub open spec fn component_text_parts(c: MessageComponentInfo) -> Seq<Seq<char>>
    decreases c, 0int,
{
    match c {
        MessageComponentInfo::ActionRow { components } => text_parts_from(components@, 0),
        MessageComponentInfo::Container { components, .. } => text_parts_from(components@, 0),
        MessageComponentInfo::Section { components, .. } => text_parts_from(components@, 0),
        MessageComponentInfo::TextDisplay { content } => if content@.len() > 0 {
            seq![content@]
        } else {
            Seq::empty()
        },
        _ => Seq::empty(),
    }
}

/// Whether any component from `i` on shows the attachment `f`.
pub open spec fn references_from(cs: Seq<MessageComponentInfo>, i: int, f: Seq<char>) -> bool
    decreases cs, cs.len() - i,
{
    if i < 0 || i >= cs.len() {
        false
    } else {
        component_references(cs[i], f) || references_from(cs, i + 1, f)
    }
}

pub open spec fn component_references(c: MessageComponentInfo, f: Seq<char>) -> bool
    decreases c, 0int,
{
    match c {
        MessageComponentInfo::Thumbnail { media, .. } => media_attachment_filename(media) == Some(f),
        MessageComponentInfo::File { file, .. } => media_attachment_filename(file) == Some(f),
        MessageComponentInfo::MediaGallery { items } => exists|k: int|
            0 <= k < items@.len() && media_attachment_filename(#[trigger] items@[k].media) == Some(f),
        MessageComponentInfo::ActionRow { components } => references_from(components@, 0, f),
        MessageComponentInfo::Container { components, .. } => references_from(components@, 0, f),
        MessageComponentInfo::Section { components, accessory } => references_from(components@, 0, f) || match accessory {
            Some(a) => component_references(*a, f),
            None => false,
        },
        _ => false,
    }
}

fn names_attachment(m: &ComponentMediaInfo, filename: &str) -> (b: bool)
    ensures
        b == (media_attachment_filename(*m) == Some(filename@)),
{
    match m.attachment_filename() {
        Some(a) => same_text(a, filename),
        None => false,
    }
}

impl MessageComponentInfo {
    /// All non-empty text displays of the tree, one per line.
    pub fn text_display_content(components: &[MessageComponentInfo]) -> (r: Option<String>)
        ensures
            r.deep_view() == if text_parts_from(components@, 0).len() > 0 {
                Some(join_seq(text_parts_from(components@, 0), "\n"@))
            } else {
                None
            },
    {
        let mut content: Vec<&str> = Vec::new();
        Self::collect_text_display_content(components, &mut content);
        assert(str_views(content@) =~= text_parts_from(components@, 0));
        if content.len() > 0 {
            Some(join_strs(&content, "\n"))
        } else {
            None
        }
    }

    pub fn collect_text_display_content<'a>(components: &'a [MessageComponentInfo], content: &mut Vec<&'a str>)
        ensures
            str_views(final(content)@) == str_views(old(content)@) + text_parts_from(components@, 0),
        decreases components@,
    {
        let n = components.len();
        let mut i: usize = 0;
        while i < n
            invariant
                n == components@.len(),
                i <= n,
                str_views(content@) + text_parts_from(components@, i as int) == str_views(old(content)@)
                    + text_parts_from(components@, 0),
            decreases n - i,
        {
            assert(decreases_to!(components@ => components@[i as int]));
            let ghost before = str_views(content@);
            let c = &components[i];
            match c {
                MessageComponentInfo::ActionRow { components: inner } => {
                    assert(decreases_to!(components@ => inner@));
                    Self::collect_text_display_content(inner.as_slice(), content);
                },
                MessageComponentInfo::Container { components: inner, .. } => {
                    assert(decreases_to!(components@ => inner@));
                    Self::collect_text_display_content(inner.as_slice(), content);
                },
                MessageComponentInfo::Section { components: inner, .. } => {
                    assert(decreases_to!(components@ => inner@));
                    Self::collect_text_display_content(inner.as_slice(), content);
                },
                MessageComponentInfo::TextDisplay { content: value } => {
                    if value.unicode_len() > 0 {
                        content.push(value.as_str());
                        assert(str_views(content@) =~= before.push(value@));
                    }
                },
                _ => {},
            }
            assert(str_views(content@) =~= before + component_text_parts(*c));
            assert(text_parts_from(components@, i as int) =~= component_text_parts(*c) + text_parts_from(components@, i + 1));
            assert(str_views(content@) + text_parts_from(components@, i + 1) =~= before + text_parts_from(components@, i as int));
            i = i + 1;
        }
        assert(text_parts_from(components@, n as int) =~= Seq::<Seq<char>>::empty());
        assert(str_views(content@) + Seq::<Seq<char>>::empty() =~= str_views(content@));
    }

    /// Whether any component of the tree shows the attachment `filename`.
    pub fn references_attachment(components: &[MessageComponentInfo], filename: &str) -> (b: bool)
        ensures
            b == references_from(components@, 0, filename@),
        decreases components@,
    {
        let n = components.len();
        let mut i: usize = 0;
        while i < n
            invariant
                n == components@.len(),
                i <= n,
                references_from(components@, 0, filename@) == references_from(components@, i as int, filename@),
            decreases n - i,
        {
            assert(decreases_to!(components@ => components@[i as int]));
            if components[i].references_attachment_value(filename) {
                return true;
            }
            i = i + 1;
        }
        false
    }

    pub fn references_attachment_value(&self, filename: &str) -> (b: bool)
        ensures
            b == component_references(*self, filename@),
        decreases self,
    {
        match self {
            MessageComponentInfo::Thumbnail { media, .. } => names_attachment(media, filename),
            MessageComponentInfo::File { file, .. } => names_attachment(file, filename),
            MessageComponentInfo::MediaGallery { items } => {
                let n = items.len();
                let mut i: usize = 0;
                while i < n
                    invariant
                        n == items@.len(),
                        i <= n,
                        forall|k: int| 0 <= k < i ==> media_attachment_filename(#[trigger] items@[k].media) != Some(filename@),
                        *self == (MessageComponentInfo::MediaGallery { items: *items }),
                    decreases n - i,
                {
                    if names_attachment(&items[i].media, filename) {
                        assert(media_attachment_filename(items@[i as int].media) == Some(filename@));
                        return true;
                    }
                    i = i + 1;
                }
                false
            },
            MessageComponentInfo::ActionRow { components } => {
                assert(decreases_to!(*self => components@));
                Self::references_attachment(components.as_slice(), filename)
            },
            MessageComponentInfo::Container { components, .. } => {
                assert(decreases_to!(*self => components@));
                Self::references_attachment(components.as_slice(), filename)
            },
            MessageComponentInfo::Section { components, accessory } => {
                assert(decreases_to!(*self => components@));
                if Self::references_attachment(components.as_slice(), filename) {
                    return true;
                }
                match accessory {
                    Some(a) => {
                        assert(decreases_to!(*self => **a));
                        a.references_attachment_value(filename)
                    },
                    None => false,
                }
            },
            _ => false,
        }
    }
}


// ---------------------------------------------------------------------------
// Inline previews of a tree
// ---------------------------------------------------------------------------

pub open spec fn opt_seq(p: Option<PreviewView>) -> Seq<PreviewView> {
    match p {
        Some(v) => seq![v],
        None => Seq::empty(),
    }
}

/// The previews of gallery items from `i` on.
pub open spec fn gallery_previews_from(items: Seq<ComponentMediaItemInfo>, i: int, atts: Seq<AttachmentInfo>, accent: Option<u32>) -> Seq<PreviewView>
    decreases items.len() - i,
{
    if i < 0 || i >= items.len() {
        Seq::empty()
    } else {
        opt_seq(component_preview(items[i].media, atts, accent)) + gallery_previews_from(items, i + 1, atts, accent)
    }
}

/// The previews of the components from `i` on, in reading order.
pub open spec fn previews_from(cs: Seq<MessageComponentInfo>, i: int, atts: Seq<AttachmentInfo>, accent: Option<u32>, sections: bool) -> Seq<PreviewView>
    decreases cs, cs.len() - i,
{
    if i < 0 || i >= cs.len() {
        Seq::empty()
    } else {
        component_previews(cs[i], atts, accent, sections) + previews_from(cs, i + 1, atts, accent, sections)
    }
}

/// What a component previews: thumbnails and gallery items, found through
/// rows, sections and containers, a container's accent overriding the one
/// it sits in. A section's thumbnail accessory counts only when `sections`
/// asks for it; another accessory always does.
pub open spec fn component_previews(c: MessageComponentInfo, atts: Seq<AttachmentInfo>, accent: Option<u32>, sections: bool) -> Seq<PreviewView>
    decreases c, 0int,
{
    match c {
        MessageComponentInfo::ActionRow { components } => previews_from(components@, 0, atts, accent, sections),
        MessageComponentInfo::Section { components, accessory } => previews_from(components@, 0, atts, accent, sections)
            + match accessory {
            Some(a) => if sections || !(*a is Thumbnail) {
                component_previews(*a, atts, accent, sections)
            } else {
                Seq::empty()
            },
            None => Seq::empty(),
        },
        MessageComponentInfo::Thumbnail { media, .. } => opt_seq(component_preview(media, atts, accent)),
        MessageComponentInfo::MediaGallery { items } => gallery_previews_from(items@, 0, atts, accent),
        MessageComponentInfo::Container { components, accent_color, .. } => previews_from(
            components@,
            0,
            atts,
            or_else(accent_color, accent),
            sections,
        ),
        _ => Seq::empty(),
    }
}

impl MessageComponentInfo {
    /// Every preview in the tree, section thumbnails included.
    pub fn inline_previews<'a>(components: &'a [MessageComponentInfo], attachments: &'a [AttachmentInfo]) -> (r: Vec<InlinePreviewInfo<'a>>)
        ensures
            previews_view(r@) == previews_from(components@, 0, attachments@, None, true),
    {
        let mut previews = Vec::new();
        Self::collect_inline_previews(components, attachments, None, true, &mut previews);
        assert(previews_view(previews@) =~= previews_from(components@, 0, attachments@, None, true));
        previews
    }

    /// The previews that flow with the text: section thumbnails are drawn
    /// beside their section instead.
    pub fn flow_inline_previews<'a>(components: &'a [MessageComponentInfo], attachments: &'a [AttachmentInfo]) -> (r: Vec<InlinePreviewInfo<'a>>)
        ensures
            previews_view(r@) == previews_from(components@, 0, attachments@, None, false),
    {
        let mut previews = Vec::new();
        Self::collect_inline_previews(components, attachments, None, false, &mut previews);
        assert(previews_view(previews@) =~= previews_from(components@, 0, attachments@, None, false));
        previews
    }

    fn collect_gallery_previews<'a>(
        items: &'a [ComponentMediaItemInfo],
        attachments: &'a [AttachmentInfo],
        accent_color: Option<u32>,
        previews: &mut Vec<InlinePreviewInfo<'a>>,
    )
        ensures
            previews_view(final(previews)@) == previews_view(old(previews)@) + gallery_previews_from(items@, 0, attachments@, accent_color),
    {
        let n = items.len();
        let mut i: usize = 0;
        while i < n
            invariant
                n == items@.len(),
                i <= n,
                previews_view(previews@) + gallery_previews_from(items@, i as int, attachments@, accent_color)
                    == previews_view(old(previews)@) + gallery_previews_from(items@, 0, attachments@, accent_color),
            decreases n - i,
        {
            let ghost before = previews_view(previews@);
            let p = items[i].media.inline_preview_info(attachments, accent_color);
            if let Some(preview) = p {
                previews.push(preview);
            }
            assert(previews_view(previews@) =~= before + opt_seq(preview_opt_view(p)));
            assert(previews_view(previews@) + gallery_previews_from(items@, i + 1, attachments@, accent_color)
                =~= before + gallery_previews_from(items@, i as int, attachments@, accent_color));
            i = i + 1;
        }
        assert(previews_view(previews@) + Seq::<PreviewView>::empty() =~= previews_view(previews@));
    }

    pub fn collect_inline_previews<'a>(
        components: &'a [MessageComponentInfo],
        attachments: &'a [AttachmentInfo],
        accent_color: Option<u32>,
        include_section_thumbnails: bool,
        previews: &mut Vec<InlinePreviewInfo<'a>>,
    )
        ensures
            previews_view(final(previews)@) == previews_view(old(previews)@) + previews_from(
                components@,
                0,
                attachments@,
                accent_color,
                include_section_thumbnails,
            ),
        decreases components@,
    {
        let ghost sections = include_section_thumbnails;
        let n = components.len();
        let mut i: usize = 0;
        while i < n
            invariant
                n == components@.len(),
                i <= n,
                previews_view(previews@) + previews_from(components@, i as int, attachments@, accent_color, sections)
                    == previews_view(old(previews)@) + previews_from(components@, 0, attachments@, accent_color, sections),
                sections == include_section_thumbnails,
            decreases n - i,
        {
            assert(decreases_to!(components@ => components@[i as int]));
            let ghost before = previews_view(previews@);
            let c = &components[i];
            c.collect_component_previews(attachments, accent_color, include_section_thumbnails, previews);
            assert(previews_from(components@, i as int, attachments@, accent_color, sections) =~= component_previews(*c, attachments@, accent_color, sections) + previews_from(components@, i + 1, attachments@, accent_color, sections));
            assert(previews_view(previews@) + previews_from(components@, i + 1, attachments@, accent_color, sections)
                =~= before + previews_from(components@, i as int, attachments@, accent_color, sections));
            i = i + 1;
        }
        assert(previews_view(previews@) + Seq::<PreviewView>::empty() =~= previews_view(previews@));
    }

    fn collect_component_previews<'a>(
        &'a self,
        attachments: &'a [AttachmentInfo],
        accent_color: Option<u32>,
        include_section_thumbnails: bool,
        previews: &mut Vec<InlinePreviewInfo<'a>>,
    )
        ensures
            previews_view(final(previews)@) == previews_view(old(previews)@) + component_previews(
                *self,
                attachments@,
                accent_color,
                include_section_thumbnails,
            ),
        decreases self,
    {
        let ghost sections = include_section_thumbnails;
        let ghost before = previews_view(previews@);
        match self {
            MessageComponentInfo::ActionRow { components: inner } => {
                assert(decreases_to!(*self => inner@));
                Self::collect_inline_previews(inner.as_slice(), attachments, accent_color, include_section_thumbnails, previews);
            },
            MessageComponentInfo::Section { components: inner, accessory } => {
                assert(decreases_to!(*self => inner@));
                Self::collect_inline_previews(inner.as_slice(), attachments, accent_color, include_section_thumbnails, previews);
                let ghost mid = previews_view(previews@);
                match accessory {
                    Some(a) => {
                        let is_thumbnail = matches!(**a, MessageComponentInfo::Thumbnail { .. });
                        if include_section_thumbnails || !is_thumbnail {
                            assert(decreases_to!(*self => **a));
                            a.collect_component_previews(attachments, accent_color, include_section_thumbnails, previews);
                        } else {
                            assert(previews_view(previews@) =~= mid + Seq::<PreviewView>::empty());
                        }
                    },
                    None => {
                        assert(previews_view(previews@) =~= mid + Seq::<PreviewView>::empty());
                    },
                }
            },
            MessageComponentInfo::Thumbnail { media, .. } => {
                let p = media.inline_preview_info(attachments, accent_color);
                if let Some(preview) = p {
                    previews.push(preview);
                }
                assert(previews_view(previews@) =~= before + opt_seq(preview_opt_view(p)));
            },
            MessageComponentInfo::MediaGallery { items } => {
                Self::collect_gallery_previews(items.as_slice(), attachments, accent_color, previews);
            },
            MessageComponentInfo::Container { components: inner, accent_color: container_accent, .. } => {
                assert(decreases_to!(*self => inner@));
                let accent = match container_accent {
                    Some(a) => Some(*a),
                    None => accent_color,
                };
                Self::collect_inline_previews(inner.as_slice(), attachments, accent, include_section_thumbnails, previews);
            },
            _ => {
                assert(previews_view(previews@) =~= before + Seq::<PreviewView>::empty());
            },
        }
        assert(previews_view(previews@) =~= before + component_previews(*self, attachments@, accent_color, sections));
    }
}


// ---------------------------------------------------------------------------
// Section thumbnails, numbered
// ---------------------------------------------------------------------------

pub open spec fn saturating_next(n: usize) -> usize {
    if n < usize::MAX { (n + 1) as usize } else { n }
}

pub open spec fn indexed_view<'a>(s: Seq<(usize, InlinePreviewInfo<'a>)>) -> Seq<(usize, PreviewView)> {
    s.map_values(|p: (usize, InlinePreviewInfo<'a>)| (p.0, p.1@))
}

/// Section thumbnails from component `i` on: every section with a
/// thumbnail accessory takes the next number, whether or not its thumbnail
/// previews, and those that preview are listed with their number. Gives the
/// next free number and the list.
pub open spec fn thumbs_from(cs: Seq<MessageComponentInfo>, i: int, atts: Seq<AttachmentInfo>, accent: Option<u32>, start: usize) -> (usize, Seq<(usize, PreviewView)>)
    decreases cs, cs.len() - i,
{
    if i < 0 || i >= cs.len() {
        (start, Seq::empty())
    } else {
        let (n1, p1) = component_thumbs(cs[i], atts, accent, start);
        let (n2, p2) = thumbs_from(cs, i + 1, atts, accent, n1);
        (n2, p1 + p2)
    }
}

pub open spec fn component_thumbs(c: MessageComponentInfo, atts: Seq<AttachmentInfo>, accent: Option<u32>, start: usize) -> (usize, Seq<(usize, PreviewView)>)
    decreases c, 0int,
{
    match c {
        MessageComponentInfo::ActionRow { components } => thumbs_from(components@, 0, atts, accent, start),
        MessageComponentInfo::Section { components, accessory } => {
            let (n1, p1): (usize, Seq<(usize, PreviewView)>) = match accessory {
                Some(a) => match *a {
                    MessageComponentInfo::Thumbnail { media, .. } => (
                        saturating_next(start),
                        match component_preview(media, atts, accent) {
                            Some(v) => seq![(start, v)],
                            None => Seq::empty(),
                        },
                    ),
                    _ => (start, Seq::empty()),
                },
                None => (start, Seq::empty()),
            };
            let (n2, p2) = thumbs_from(components@, 0, atts, accent, n1);
            (n2, p1 + p2)
        },
        MessageComponentInfo::Container { components, accent_color, .. } => thumbs_from(
            components@,
            0,
            atts,
            or_else(accent_color, accent),
            start,
        ),
        _ => (start, Seq::empty()),
    }
}

impl MessageComponentInfo {
    /// Number the section thumbnails of the tree from `*next_index` on and
    /// collect those that preview.
    pub fn collect_section_thumbnail_previews<'a>(
        components: &'a [MessageComponentInfo],
        attachments: &'a [AttachmentInfo],
        next_index: &mut usize,
        previews: &mut Vec<(usize, InlinePreviewInfo<'a>)>,
    )
        ensures
            *final(next_index) == thumbs_from(components@, 0, attachments@, None, *old(next_index)).0,
            indexed_view(final(previews)@) == indexed_view(old(previews)@) + thumbs_from(components@, 0, attachments@, None, *old(next_index)).1,
    {
        Self::collect_section_thumbnail_previews_with_accent(components, attachments, None, next_index, previews);
    }

    fn collect_section_thumbnail_previews_with_accent<'a>(
        components: &'a [MessageComponentInfo],
        attachments: &'a [AttachmentInfo],
        accent_color: Option<u32>,
        next_index: &mut usize,
        previews: &mut Vec<(usize, InlinePreviewInfo<'a>)>,
    )
        ensures
            *final(next_index) == thumbs_from(components@, 0, attachments@, accent_color, *old(next_index)).0,
            indexed_view(final(previews)@) == indexed_view(old(previews)@) + thumbs_from(components@, 0, attachments@, accent_color, *old(next_index)).1,
        decreases components@,
    {
        let n = components.len();
        let mut i: usize = 0;
        while i < n
            invariant
                n == components@.len(),
                i <= n,
                thumbs_from(components@, i as int, attachments@, accent_color, *next_index).0
                    == thumbs_from(components@, 0, attachments@, accent_color, *old(next_index)).0,
                indexed_view(previews@) + thumbs_from(components@, i as int, attachments@, accent_color, *next_index).1
                    == indexed_view(old(previews)@) + thumbs_from(components@, 0, attachments@, accent_color, *old(next_index)).1,
            decreases n - i,
        {
            assert(decreases_to!(components@ => components@[i as int]));
            let ghost before = indexed_view(previews@);
            let ghost start = *next_index;
            let c = &components[i];
            c.collect_component_thumbs(attachments, accent_color, next_index, previews);
            let ghost rest = thumbs_from(components@, i + 1, attachments@, accent_color, *next_index);
            assert(indexed_view(previews@) + rest.1 =~= before + thumbs_from(components@, i as int, attachments@, accent_color, start).1);
            i = i + 1;
        }
        assert(indexed_view(previews@) + Seq::<(usize, PreviewView)>::empty() =~= indexed_view(previews@));
    }

    fn collect_component_thumbs<'a>(
        &'a self,
        attachments: &'a [AttachmentInfo],
        accent_color: Option<u32>,
        next_index: &mut usize,
        previews: &mut Vec<(usize, InlinePreviewInfo<'a>)>,
    )
        ensures
            *final(next_index) == component_thumbs(*self, attachments@, accent_color, *old(next_index)).0,
            indexed_view(final(previews)@) == indexed_view(old(previews)@) + component_thumbs(*self, attachments@, accent_color, *old(next_index)).1,
        decreases self,
    {
        let ghost before = indexed_view(previews@);
        match self {
            MessageComponentInfo::ActionRow { components } => {
                assert(decreases_to!(*self => components@));
                Self::collect_section_thumbnail_previews_with_accent(components.as_slice(), attachments, accent_color, next_index, previews);
            },
            MessageComponentInfo::Section { components, accessory } => {
                if let Some(a) = accessory {
                    if let MessageComponentInfo::Thumbnail { media, .. } = &**a {
                        let index = *next_index;
                        *next_index = next_index.saturating_add(1);
                        let p = media.inline_preview_info(attachments, accent_color);
                        if let Some(preview) = p {
                            previews.push((index, preview));
                        }
                        assert(indexed_view(previews@) =~= before + match preview_opt_view(p) {
                            Some(v) => seq![(index, v)],
                            None => Seq::<(usize, PreviewView)>::empty(),
                        });
                    } else {
                        assert(indexed_view(previews@) =~= before + Seq::<(usize, PreviewView)>::empty());
                    }
                } else {
                    assert(indexed_view(previews@) =~= before + Seq::<(usize, PreviewView)>::empty());
                }
                let ghost mid = indexed_view(previews@);
                assert(decreases_to!(*self => components@));
                Self::collect_section_thumbnail_previews_with_accent(components.as_slice(), attachments, accent_color, next_index, previews);
                assert(indexed_view(previews@) =~= before + component_thumbs(*self, attachments@, accent_color, *old(next_index)).1);
            },
            MessageComponentInfo::Container { components, accent_color: container_accent, .. } => {
                assert(decreases_to!(*self => components@));
                let accent = match container_accent {
                    Some(a) => Some(*a),
                    None => accent_color,
                };
                Self::collect_section_thumbnail_previews_with_accent(components.as_slice(), attachments, accent, next_index, previews);
            },
            _ => {
                assert(indexed_view(previews@) =~= before + Seq::<(usize, PreviewView)>::empty());
            },
        }
    }
}


// ---------------------------------------------------------------------------
// What the numbering of section thumbnails keeps
// ---------------------------------------------------------------------------

/// How many sections with a thumbnail accessory stand among the components
/// from `i` on, through rows, sections and containers.
pub open spec fn thumb_sections_from(cs: Seq<MessageComponentInfo>, i: int) -> nat
    decreases cs, cs.len() - i,
{
    if i < 0 || i >= cs.len() {
        0
    } else {
        component_thumb_sections(cs[i]) + thumb_sections_from(cs, i + 1)
    }
}

pub open spec fn component_thumb_sections(c: MessageComponentInfo) -> nat
    decreases c, 0int,
{
    match c {
        MessageComponentInfo::ActionRow { components } => thumb_sections_from(components@, 0),
        MessageComponentInfo::Section { components, accessory } => (match accessory {
            Some(a) => if *a is Thumbnail { 1nat } else { 0nat },
            None => 0nat,
        }) + thumb_sections_from(components@, 0),
        MessageComponentInfo::Container { components, .. } => thumb_sections_from(components@, 0),
        _ => 0,
    }
}

/// Every number in `s` lies in `[lo, hi)`, and the numbers rise strictly.
pub open spec fn numbered_within(s: Seq<(usize, PreviewView)>, lo: int, hi: int) -> bool {
    &&& forall|k: int| 0 <= k < s.len() ==> lo <= #[trigger] s[k].0 < hi
    &&& forall|k: int, l: int| 0 <= k < l < s.len() ==> #[trigger] s[k].0 < #[trigger] s[l].0
}

proof fn lemma_numbered_concat(a: Seq<(usize, PreviewView)>, b: Seq<(usize, PreviewView)>, lo: int, mid: int, hi: int)
    requires
        numbered_within(a, lo, mid),
        numbered_within(b, mid, hi),
        lo <= mid <= hi,
    ensures
        numbered_within(a + b, lo, hi),
{
    let s = a + b;
    assert forall|k: int, l: int| 0 <= k < l < s.len() implies #[trigger] s[k].0 < #[trigger] s[l].0 by {
        if l < a.len() {
        } else if k < a.len() {
            assert(s[l] == b[l - a.len()]);
        } else {
            assert(s[k] == b[k - a.len()]);
            assert(s[l] == b[l - a.len()]);
        }
    }
    assert forall|k: int| 0 <= k < s.len() implies lo <= #[trigger] s[k].0 < hi by {
        if k >= a.len() {
            assert(s[k] == b[k - a.len()]);
        } else {
            assert(s[k] == a[k]);
        }
    }
}

/// Numbering the section thumbnails of components gives each section with a
/// thumbnail accessory its own number, counted on from `start`, whether or
/// not its thumbnail previews: the next free number ends up `start` plus the
/// count of such sections, and the previews listed carry rising numbers in
/// that range.
pub proof fn law_section_thumbnails_are_numbered_in_order(
    cs: Seq<MessageComponentInfo>,
    i: int,
    atts: Seq<AttachmentInfo>,
    accent: Option<u32>,
    start: usize,
)
    requires
        start + thumb_sections_from(cs, i) <= usize::MAX,
    ensures
        thumbs_from(cs, i, atts, accent, start).0 == start + thumb_sections_from(cs, i),
        numbered_within(thumbs_from(cs, i, atts, accent, start).1, start as int, start + thumb_sections_from(cs, i)),
    decreases cs, cs.len() - i,
{
    if i < 0 || i >= cs.len() {
    } else {
        assert(decreases_to!(cs => cs[i]));
        law_component_thumbnails_are_numbered_in_order(cs[i], atts, accent, start);
        let (n1, p1) = component_thumbs(cs[i], atts, accent, start);
        law_section_thumbnails_are_numbered_in_order(cs, i + 1, atts, accent, n1);
        let (n2, p2) = thumbs_from(cs, i + 1, atts, accent, n1);
        lemma_numbered_concat(p1, p2, start as int, n1 as int, n2 as int);
    }
}

/// The same numbering law for one component.
pub proof fn law_component_thumbnails_are_numbered_in_order(
    c: MessageComponentInfo,
    atts: Seq<AttachmentInfo>,
    accent: Option<u32>,
    start: usize,
)
    requires
        start + component_thumb_sections(c) <= usize::MAX,
    ensures
        component_thumbs(c, atts, accent, start).0 == start + component_thumb_sections(c),
        numbered_within(component_thumbs(c, atts, accent, start).1, start as int, start + component_thumb_sections(c)),
    decreases c, 0int,
{
    match c {
        MessageComponentInfo::ActionRow { components } => {
            assert(decreases_to!(c => components@));
            law_section_thumbnails_are_numbered_in_order(components@, 0, atts, accent, start);
        },
        MessageComponentInfo::Section { components, accessory } => {
            let (n1, p1): (usize, Seq<(usize, PreviewView)>) = match accessory {
                Some(a) => match *a {
                    MessageComponentInfo::Thumbnail { media, .. } => (
                        saturating_next(start),
                        match component_preview(media, atts, accent) {
                            Some(v) => seq![(start, v)],
                            None => Seq::empty(),
                        },
                    ),
                    _ => (start, Seq::empty()),
                },
                None => (start, Seq::empty()),
            };
            assert(numbered_within(p1, start as int, n1 as int));
            assert(decreases_to!(c => components@));
            law_section_thumbnails_are_numbered_in_order(components@, 0, atts, accent, n1);
            let (n2, p2) = thumbs_from(components@, 0, atts, accent, n1);
            lemma_numbered_concat(p1, p2, start as int, n1 as int, n2 as int);
        },
        MessageComponentInfo::Container { components, accent_color, .. } => {
            assert(decreases_to!(c => components@));
            law_section_thumbnails_are_numbered_in_order(components@, 0, atts, or_else(accent_color, accent), start);
        },
        _ => {},
    }
}


// ---------------------------------------------------------------------------
// What the previews of a tree keep
// ---------------------------------------------------------------------------

/// No container among the components from `i` on, at any depth, sets an
/// accent of its own.
pub open spec fn sets_no_accent_from(cs: Seq<MessageComponentInfo>, i: int) -> bool
    decreases cs, cs.len() - i,
{
    if i < 0 || i >= cs.len() {
        true
    } else {
        component_sets_no_accent(cs[i]) && sets_no_accent_from(cs, i + 1)
    }
}

pub open spec fn component_sets_no_accent(c: MessageComponentInfo) -> bool
    decreases c, 0int,
{
    match c {
        MessageComponentInfo::ActionRow { components } => sets_no_accent_from(components@, 0),
        MessageComponentInfo::Section { components, accessory } => sets_no_accent_from(components@, 0) && match accessory {
            Some(a) => component_sets_no_accent(*a),
            None => true,
        },
        MessageComponentInfo::Container { components, accent_color, .. } => accent_color is None && sets_no_accent_from(
            components@,
            0,
        ),
        _ => true,
    }
}

/// Every preview in `s` is drawn in `accent`.
pub open spec fn all_in_accent(s: Seq<PreviewView>, accent: Option<u32>) -> bool {
    forall|k: int| 0 <= k < s.len() ==> (#[trigger] s[k]).accent_color == accent
}

proof fn lemma_all_in_accent_concat(a: Seq<PreviewView>, b: Seq<PreviewView>, accent: Option<u32>)
    requires
        all_in_accent(a, accent),
        all_in_accent(b, accent),
    ensures
        all_in_accent(a + b, accent),
{
    assert forall|k: int| 0 <= k < (a + b).len() implies (#[trigger] (a + b)[k]).accent_color == accent by {
        if k < a.len() {
            assert((a + b)[k] == a[k]);
        } else {
            assert((a + b)[k] == b[k - a.len()]);
        }
    }
}

proof fn lemma_media_preview_in_accent(m: ComponentMediaInfo, atts: Seq<AttachmentInfo>, accent: Option<u32>)
    ensures
        all_in_accent(opt_seq(component_preview(m, atts, accent)), accent),
{
}

proof fn lemma_gallery_in_accent(items: Seq<ComponentMediaItemInfo>, i: int, atts: Seq<AttachmentInfo>, accent: Option<u32>)
    ensures
        all_in_accent(gallery_previews_from(items, i, atts, accent), accent),
    decreases items.len() - i,
{
    if 0 <= i < items.len() {
        lemma_media_preview_in_accent(items[i].media, atts, accent);
        lemma_gallery_in_accent(items, i + 1, atts, accent);
        lemma_all_in_accent_concat(
            opt_seq(component_preview(items[i].media, atts, accent)),
            gallery_previews_from(items, i + 1, atts, accent),
            accent,
        );
    }
}

/// Components inherit the accent they sit in: where no container among
/// them sets an accent of its own, every preview they give is drawn in the
/// accent handed down.
pub proof fn law_previews_inherit_the_accent(
    cs: Seq<MessageComponentInfo>,
    i: int,
    atts: Seq<AttachmentInfo>,
    accent: Option<u32>,
    sections: bool,
)
    requires
        sets_no_accent_from(cs, i),
    ensures
        all_in_accent(previews_from(cs, i, atts, accent, sections), accent),
    decreases cs, cs.len() - i,
{
    if 0 <= i < cs.len() {
        assert(decreases_to!(cs => cs[i]));
        law_component_previews_inherit_the_accent(cs[i], atts, accent, sections);
        law_previews_inherit_the_accent(cs, i + 1, atts, accent, sections);
        lemma_all_in_accent_concat(
            component_previews(cs[i], atts, accent, sections),
            previews_from(cs, i + 1, atts, accent, sections),
            accent,
        );
    }
}

/// The same inheritance law for one component.
pub proof fn law_component_previews_inherit_the_accent(
    c: MessageComponentInfo,
    atts: Seq<AttachmentInfo>,
    accent: Option<u32>,
    sections: bool,
)
    requires
        component_sets_no_accent(c),
    ensures
        all_in_accent(component_previews(c, atts, accent, sections), accent),
    decreases c, 0int,
{
    match c {
        MessageComponentInfo::ActionRow { components } => {
            assert(decreases_to!(c => components@));
            law_previews_inherit_the_accent(components@, 0, atts, accent, sections);
        },
        MessageComponentInfo::Section { components, accessory } => {
            assert(decreases_to!(c => components@));
            law_previews_inherit_the_accent(components@, 0, atts, accent, sections);
            let tail: Seq<PreviewView> = match accessory {
                Some(a) => if sections || !(*a is Thumbnail) {
                    component_previews(*a, atts, accent, sections)
                } else {
                    Seq::empty()
                },
                None => Seq::empty(),
            };
            match accessory {
                Some(a) => {
                    assert(decreases_to!(c => *a));
                    law_component_previews_inherit_the_accent(*a, atts, accent, sections);
                },
                None => {},
            }
            lemma_all_in_accent_concat(previews_from(components@, 0, atts, accent, sections), tail, accent);
        },
        MessageComponentInfo::Thumbnail { media, .. } => {
            lemma_media_preview_in_accent(media, atts, accent);
        },
        MessageComponentInfo::MediaGallery { items } => {
            lemma_gallery_in_accent(items@, 0, atts, accent);
        },
        MessageComponentInfo::Container { components, accent_color, .. } => {
            assert(decreases_to!(c => components@));
            law_previews_inherit_the_accent(components@, 0, atts, accent, sections);
        },
        _ => {},
    }
}

/// A container's own accent colours every preview inside it, wherever no
/// container within it sets another.
pub proof fn law_a_container_accent_colours_its_previews(
    components: Vec<MessageComponentInfo>,
    color: u32,
    spoiler: bool,
    atts: Seq<AttachmentInfo>,
    accent: Option<u32>,
    sections: bool,
)
    requires
        sets_no_accent_from(components@, 0),
    ensures
        all_in_accent(
            component_previews(
                MessageComponentInfo::Container { components, accent_color: Some(color), spoiler },
                atts,
                accent,
                sections,
            ),
            Some(color),
        ),
{
    law_previews_inherit_the_accent(components@, 0, atts, Some(color), sections);
}

/// Buttons, selects, text, files, separators and components of unknown kind
/// preview nothing, and take no thumbnail number.
pub proof fn law_non_media_components_preview_nothing(
    c: MessageComponentInfo,
    atts: Seq<AttachmentInfo>,
    accent: Option<u32>,
    sections: bool,
    start: usize,
)
    requires
        c is Button || c is Select || c is TextDisplay || c is File || c is Separator || c is Unknown,
    ensures
        component_previews(c, atts, accent, sections) == Seq::<PreviewView>::empty(),
        component_thumbs(c, atts, accent, start) == (start, Seq::<(usize, PreviewView)>::empty()),
{
}


/// No section among the components from `i` on, at any depth, accessories
/// included, has a thumbnail accessory.
pub open spec fn no_section_thumbnail_from(cs: Seq<MessageComponentInfo>, i: int) -> bool
    decreases cs, cs.len() - i,
{
    if i < 0 || i >= cs.len() {
        true
    } else {
        component_has_no_section_thumbnail(cs[i]) && no_section_thumbnail_from(cs, i + 1)
    }
}

pub open spec fn component_has_no_section_thumbnail(c: MessageComponentInfo) -> bool
    decreases c, 0int,
{
    match c {
        MessageComponentInfo::ActionRow { components } => no_section_thumbnail_from(components@, 0),
        MessageComponentInfo::Section { components, accessory } => no_section_thumbnail_from(components@, 0) && match accessory {
            Some(a) => !(*a is Thumbnail) && component_has_no_section_thumbnail(*a),
            None => true,
        },
        MessageComponentInfo::Container { components, .. } => no_section_thumbnail_from(components@, 0),
        _ => true,
    }
}

/// Leaving section thumbnails out leaves out nothing else: components with
/// no section thumbnail give the same previews either way.
pub proof fn law_only_section_thumbnails_depend_on_the_choice(
    cs: Seq<MessageComponentInfo>,
    i: int,
    atts: Seq<AttachmentInfo>,
    accent: Option<u32>,
)
    requires
        no_section_thumbnail_from(cs, i),
    ensures
        previews_from(cs, i, atts, accent, true) == previews_from(cs, i, atts, accent, false),
    decreases cs, cs.len() - i,
{
    if 0 <= i < cs.len() {
        assert(decreases_to!(cs => cs[i]));
        law_component_previews_depend_only_on_section_thumbnails(cs[i], atts, accent);
        law_only_section_thumbnails_depend_on_the_choice(cs, i + 1, atts, accent);
    }
}

/// The same law for one component.
pub proof fn law_component_previews_depend_only_on_section_thumbnails(
    c: MessageComponentInfo,
    atts: Seq<AttachmentInfo>,
    accent: Option<u32>,
)
    requires
        component_has_no_section_thumbnail(c),
    ensures
        component_previews(c, atts, accent, true) == component_previews(c, atts, accent, false),
    decreases c, 0int,
{
    match c {
        MessageComponentInfo::ActionRow { components } => {
            assert(decreases_to!(c => components@));
            law_only_section_thumbnails_depend_on_the_choice(components@, 0, atts, accent);
        },
        MessageComponentInfo::Section { components, accessory } => {
            assert(decreases_to!(c => components@));
            law_only_section_thumbnails_depend_on_the_choice(components@, 0, atts, accent);
            match accessory {
                Some(a) => {
                    assert(decreases_to!(c => *a));
                    law_component_previews_depend_only_on_section_thumbnails(*a, atts, accent);
                },
                None => {},
            }
        },
        MessageComponentInfo::Container { components, accent_color, .. } => {
            assert(decreases_to!(c => components@));
            law_only_section_thumbnails_depend_on_the_choice(components@, 0, atts, or_else(accent_color, accent));
        },
        _ => {},
    }
}


// ---------------------------------------------------------------------------
// What a piece of media and the collector promise
// ---------------------------------------------------------------------------

proof fn lemma_first_named_from(atts: Seq<AttachmentInfo>, f: Seq<char>, j: int, i: int)
    requires
        0 <= j <= i < atts.len(),
        atts[i].filename@ == f,
        forall|k: int| 0 <= k < i ==> (#[trigger] atts[k]).filename@ != f,
    ensures
        first_named_from(atts, f, j) == Some(i),
    decreases i - j,
{
    if j < i {
        lemma_first_named_from(atts, f, j + 1, i);
    }
}

/// Media that names an attached file previews exactly as the first
/// attachment of that name does, in the accent handed down: when that
/// attachment has no preview, neither has the media, whatever its own URL
/// or content type says.
pub proof fn law_attached_media_previews_as_its_attachment(m: ComponentMediaInfo, atts: Seq<AttachmentInfo>, accent: Option<u32>, i: int)
    requires
        media_attachment_filename(m) matches Some(f) && 0 <= i < atts.len() && atts[i].filename@ == f
            && forall|k: int| 0 <= k < i ==> (#[trigger] atts[k]).filename@ != f,
    ensures
        component_preview(m, atts, accent) == with_accent(attachment_preview(atts[i]), accent),
        attachment_preview(atts[i]) is None ==> component_preview(m, atts, accent) is None,
{
    let f = media_attachment_filename(m)->0;
    lemma_first_named_from(atts, f, 0, i);
}

/// Collecting previews keeps those already collected, in place, and adds
/// the tree's after them; where no container in the tree sets an accent of
/// its own, every added preview is drawn in the accent handed down.
pub proof fn law_collecting_keeps_earlier_previews(
    earlier: Seq<PreviewView>,
    cs: Seq<MessageComponentInfo>,
    atts: Seq<AttachmentInfo>,
    accent: Option<u32>,
    sections: bool,
)
    ensures
        (earlier + previews_from(cs, 0, atts, accent, sections)).take(earlier.len() as int) == earlier,
        sets_no_accent_from(cs, 0) ==> all_in_accent((earlier + previews_from(cs, 0, atts, accent, sections)).skip(earlier.len() as int), accent),
{
    let all = earlier + previews_from(cs, 0, atts, accent, sections);
    assert(all.take(earlier.len() as int) =~= earlier);
    assert(all.skip(earlier.len() as int) =~= previews_from(cs, 0, atts, accent, sections));
    if sets_no_accent_from(cs, 0) {
        law_previews_inherit_the_accent(cs, 0, atts, accent, sections);
    }
}

} // verus!
