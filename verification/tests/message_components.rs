use concord::message::components::{ComponentMediaItemInfo, MessageComponentInfo};
use concord::message::ComponentMediaInfo;

fn image(url: &str) -> ComponentMediaInfo {
    ComponentMediaInfo {
        url: url.to_owned(),
        proxy_url: None,
        content_type: Some("image/png".to_owned()),
        width: Some(10),
        height: Some(20),
        flags: 0,
    }
}

fn thumbnail(url: &str) -> MessageComponentInfo {
    MessageComponentInfo::Thumbnail { media: image(url), description: None, spoiler: false }
}

fn section_with(accessory: MessageComponentInfo, components: Vec<MessageComponentInfo>) -> MessageComponentInfo {
    MessageComponentInfo::Section { components, accessory: Some(Box::new(accessory)) }
}

fn gallery(urls: &[&str]) -> MessageComponentInfo {
    MessageComponentInfo::MediaGallery {
        items: urls
            .iter()
            .map(|url| ComponentMediaItemInfo { media: image(url), description: None, spoiler: false })
            .collect(),
    }
}

#[test]
fn previews_take_the_innermost_container_accent() {
    let tree = vec![MessageComponentInfo::Container {
        components: vec![
            gallery(&["https://cdn.example/a.png"]),
            MessageComponentInfo::Container {
                components: vec![gallery(&["https://cdn.example/b.png"])],
                accent_color: Some(0x00ff00),
                spoiler: false,
            },
            MessageComponentInfo::Container {
                components: vec![gallery(&["https://cdn.example/c.png"])],
                accent_color: None,
                spoiler: false,
            },
        ],
        accent_color: Some(0xff0000),
        spoiler: false,
    }];
    let previews = MessageComponentInfo::inline_previews(&tree, &[]);
    let seen: Vec<(&str, Option<u32>)> = previews.iter().map(|p| (p.url, p.accent_color)).collect();
    assert_eq!(
        seen,
        vec![
            ("https://cdn.example/a.png", Some(0xff0000)),
            ("https://cdn.example/b.png", Some(0x00ff00)),
            ("https://cdn.example/c.png", Some(0xff0000)),
        ]
    );
}

#[test]
fn components_without_media_preview_nothing() {
    let tree = vec![
        MessageComponentInfo::Button { label: Some("Go".to_owned()), emoji: None, url: None, disabled: false },
        MessageComponentInfo::TextDisplay { content: "hello".to_owned() },
        MessageComponentInfo::Separator { divider: true, spacing: 1 },
        MessageComponentInfo::File { file: image("https://cdn.example/f.png"), name: None, size: None, spoiler: false },
        MessageComponentInfo::Unknown { kind: 99 },
    ];
    assert!(MessageComponentInfo::inline_previews(&tree, &[]).is_empty());
    let mut next_index = 4;
    let mut numbered = Vec::new();
    MessageComponentInfo::collect_section_thumbnail_previews(&tree, &[], &mut next_index, &mut numbered);
    assert_eq!(next_index, 4);
    assert!(numbered.is_empty());
}

#[test]
fn collecting_keeps_the_previews_already_there() {
    let first = vec![gallery(&["https://cdn.example/a.png"])];
    let second = vec![gallery(&["https://cdn.example/b.png", "https://cdn.example/c.png"])];
    let mut previews = MessageComponentInfo::inline_previews(&first, &[]);
    MessageComponentInfo::collect_inline_previews(&second, &[], None, true, &mut previews);
    let urls: Vec<&str> = previews.iter().map(|p| p.url).collect();
    assert_eq!(urls, vec!["https://cdn.example/a.png", "https://cdn.example/b.png", "https://cdn.example/c.png"]);
}

#[test]
fn flowing_previews_leave_out_only_section_thumbnails() {
    let tree = vec![section_with(thumbnail("https://cdn.example/t.png"), vec![gallery(&["https://cdn.example/g.png"])])];
    let all: Vec<&str> = MessageComponentInfo::inline_previews(&tree, &[]).iter().map(|p| p.url).collect();
    let flow: Vec<&str> = MessageComponentInfo::flow_inline_previews(&tree, &[]).iter().map(|p| p.url).collect();
    assert_eq!(all, vec!["https://cdn.example/g.png", "https://cdn.example/t.png"]);
    assert_eq!(flow, vec!["https://cdn.example/g.png"]);
}

#[test]
fn every_section_thumbnail_takes_a_number_even_without_a_preview() {
    let tree = vec![
        section_with(thumbnail("https://cdn.example/one.png"), vec![]),
        MessageComponentInfo::Container {
            components: vec![
                section_with(thumbnail(""), vec![]),
                section_with(
                    MessageComponentInfo::Button { label: None, emoji: None, url: None, disabled: false },
                    vec![],
                ),
            ],
            accent_color: None,
            spoiler: false,
        },
        MessageComponentInfo::ActionRow { components: vec![section_with(thumbnail("https://cdn.example/three.png"), vec![])] },
    ];
    let mut next_index = 7;
    let mut numbered = Vec::new();
    MessageComponentInfo::collect_section_thumbnail_previews(&tree, &[], &mut next_index, &mut numbered);
    assert_eq!(next_index, 10);
    let seen: Vec<(usize, &str)> = numbered.iter().map(|(index, p)| (*index, p.url)).collect();
    assert_eq!(seen, vec![(7, "https://cdn.example/one.png"), (9, "https://cdn.example/three.png")]);
}
