use concord::json::{to_json_string, JsonValue};
use concord::rest::relationships::{friend_request_body, friend_request_target};

#[test]
fn a_pomelo_name_carries_no_discriminator() {
    assert_eq!(friend_request_target("someone"), Some(("someone".to_owned(), None)));
    assert_eq!(friend_request_target(" @someone "), Some(("someone".to_owned(), None)));
}

#[test]
fn a_legacy_name_keeps_its_discriminator() {
    assert_eq!(friend_request_target("someone#0001"), Some(("someone".to_owned(), Some(1))));
}

#[test]
fn nothing_usable_is_refused_rather_than_sent() {
    assert_eq!(friend_request_target(""), None);
    assert_eq!(friend_request_target("   "), None);
    assert_eq!(friend_request_target("someone#"), None);
    assert_eq!(friend_request_target("someone#abcd"), None);
    assert_eq!(friend_request_target("#0001"), None);
}

#[test]
fn a_friend_request_body_names_the_user() {
    let body = friend_request_body("someone", None);
    assert_eq!(body.get("username"), Some(&JsonValue::Str("someone".to_owned())));
    assert!(to_json_string(&body).contains("\"username\":\"someone\""));
}
