use concord::json::JsonValue;
use concord::rest::discovery_metadata::{
    DiscoveryMetadata, DiscoveryMetadataProblem, MAX_DISCOVERY_ABOUT_CHARS, MAX_DISCOVERY_KEYWORDS,
    MAX_DISCOVERY_KEYWORD_CHARS, MAX_DISCOVERY_SUBCATEGORIES,
};

fn metadata() -> DiscoveryMetadata {
    DiscoveryMetadata {
        primary_category_id: Some(49),
        keywords: vec!["rust".to_owned()],
        emoji_discoverability_enabled: true,
        about: Some("We talk about Rust".to_owned()),
        category_ids: vec![48],
    }
}

#[test]
fn a_complete_metadata_is_accepted() {
    assert_eq!(metadata().problem(), None);
}

#[test]
fn every_documented_cap_is_refused_before_the_round_trip() {
    let too_many = DiscoveryMetadata { keywords: vec!["a".to_owned(); MAX_DISCOVERY_KEYWORDS + 1], ..metadata() };
    assert_eq!(too_many.problem(), Some(DiscoveryMetadataProblem::TooManyKeywords));

    let too_long = DiscoveryMetadata { keywords: vec!["a".repeat(MAX_DISCOVERY_KEYWORD_CHARS + 1)], ..metadata() };
    assert_eq!(too_long.problem(), Some(DiscoveryMetadataProblem::KeywordTooLong));

    let too_many_categories = DiscoveryMetadata { category_ids: vec![1; MAX_DISCOVERY_SUBCATEGORIES + 1], ..metadata() };
    assert_eq!(too_many_categories.problem(), Some(DiscoveryMetadataProblem::TooManySubcategories));

    let long_about = DiscoveryMetadata { about: Some("a".repeat(MAX_DISCOVERY_ABOUT_CHARS + 1)), ..metadata() };
    assert_eq!(long_about.problem(), Some(DiscoveryMetadataProblem::AboutTooLong));
}

#[test]
fn caps_are_counted_in_characters_not_bytes() {
    let ok = DiscoveryMetadata { about: Some("é".repeat(MAX_DISCOVERY_ABOUT_CHARS)), ..metadata() };
    assert_eq!(ok.problem(), None);
}

#[test]
fn every_field_is_sent_because_this_endpoint_replaces() {
    let body = DiscoveryMetadata::default().to_body();

    for field in ["primary_category_id", "keywords", "emoji_discoverability_enabled", "about", "category_ids"] {
        assert!(body.get(field).is_some(), "{field} was omitted");
    }
}

#[test]
fn no_primary_category_is_sent_as_null_and_says_the_server_is_not_listed() {
    let unlisted = DiscoveryMetadata { primary_category_id: None, ..metadata() };

    assert_eq!(unlisted.to_body().get("primary_category_id"), Some(&JsonValue::Null));
    assert!(unlisted.summary().contains("not listed"));
    assert!(!metadata().summary().contains("not listed"));
}
