use concord::ids::Id;
use concord::message::{MessageKind, StickerFormat, StickerInfo};

#[test]
fn a_sticker_url_matches_its_format() {
    let png = StickerInfo::new(Id::new(1), "wave".to_owned(), StickerFormat::Png);
    assert!(png.url.ends_with("/1.png"));

    let apng = StickerInfo::new(Id::new(2), "spin".to_owned(), StickerFormat::Apng);
    assert!(apng.url.ends_with("/2.png"));

    let gif = StickerInfo::new(Id::new(3), "dance".to_owned(), StickerFormat::Gif);
    assert!(gif.url.ends_with("/3.gif"));
}

#[test]
fn a_lottie_sticker_has_no_image() {
    let lottie = StickerInfo::new(Id::new(4), "bounce".to_owned(), StickerFormat::Lottie);

    assert!(lottie.url.is_empty());
    assert!(lottie.image_url().is_none());
    assert!(lottie.inline_preview_info().is_none());
}

#[test]
fn an_image_sticker_previews_at_discords_own_size() {
    let sticker = StickerInfo::new(Id::new(5), "hello".to_owned(), StickerFormat::Png);
    let preview = sticker.inline_preview_info().expect("an image sticker should preview");

    assert_eq!(preview.width, Some(160));
    assert_eq!(preview.height, Some(160));
    assert_eq!(preview.url, sticker.url);
    assert!(!preview.animated);
}

#[test]
fn every_message_type_the_client_knows_has_a_label() {
    let missing: Vec<u8> =
        (0..=68u8).filter(|code| *code != 43).filter(|code| MessageKind::new(*code).known_label().is_none()).collect();
    assert!(missing.is_empty(), "these message types would render as \"Unknown message type\": {missing:?}");
}

#[test]
fn a_type_discord_does_not_have_is_still_unknown() {
    assert_eq!(MessageKind::new(200).known_label(), None);
    assert_eq!(MessageKind::new(200).label(), "Unknown message type");
    assert_eq!(MessageKind::new(43).known_label(), None);
}

#[test]
fn a_sticker_format_survives_its_wire_value() {
    for format in [StickerFormat::Png, StickerFormat::Apng, StickerFormat::Lottie, StickerFormat::Gif] {
        assert_eq!(StickerFormat::from_wire(format.to_wire()), format);
    }
}
