use concord::json::JsonValue;
use concord::rest::account::{
    collect_codes, password_problem, username_problem, AccountEdit, BackupCodeBody, MAX_USERNAME_CHARS,
};
use concord::secret::Secret;

fn text(s: &str) -> JsonValue {
    JsonValue::Str(s.to_owned())
}

#[test]
fn account_an_empty_edit_is_not_sent() {
    assert!(AccountEdit::default().is_empty());
    assert!(!AccountEdit { username: Some("someone".to_owned()), ..AccountEdit::default() }.is_empty());
}

#[test]
fn the_current_password_is_always_sent_and_only_the_changed_fields_are() {
    let edit = AccountEdit { username: Some("someone".to_owned()), ..AccountEdit::default() };
    let body = edit.to_body(&Secret::new("hunter2"));

    assert_eq!(body.get("password"), Some(&text("hunter2")));
    assert_eq!(body.get("username"), Some(&text("someone")));
    assert!(body.get("email").is_none());
    assert!(body.get("new_password").is_none());
}

#[test]
fn a_new_password_is_sent_separately_from_the_current_one() {
    let edit = AccountEdit { new_password: Some(Secret::new("new-one")), ..AccountEdit::default() };
    let body = edit.to_body(&Secret::new("old-one"));

    assert_eq!(body.get("password"), Some(&text("old-one")));
    assert_eq!(body.get("new_password"), Some(&text("new-one")));
}

#[test]
fn usernames_discord_would_reject_are_refused_here() {
    assert_eq!(username_problem("someone"), None);
    assert!(username_problem("a").is_some());
    assert!(username_problem(&"a".repeat(33)).is_some());
    assert!(username_problem("some@one").is_some());
    assert!(username_problem("some#one").is_some());
    assert!(username_problem("some:one").is_some());
    assert!(username_problem("some```one").is_some());
}

#[test]
fn username_length_is_counted_in_characters_not_bytes() {
    assert_eq!(username_problem(&"é".repeat(MAX_USERNAME_CHARS)), None);
    assert!(username_problem(&"é".repeat(MAX_USERNAME_CHARS + 1)).is_some());
}

#[test]
fn short_passwords_are_refused_before_the_round_trip() {
    assert_eq!(password_problem("hunter22"), None);
    assert!(password_problem("short").is_some());
}

#[test]
fn a_used_backup_code_is_kept_rather_than_dropped() {
    let codes = collect_codes(vec![
        BackupCodeBody { code: Some("aaaa".to_owned()), consumed: true },
        BackupCodeBody { code: Some("bbbb".to_owned()), consumed: false },
        BackupCodeBody { code: None, consumed: false },
    ]);

    assert_eq!(codes.len(), 2);
    assert!(codes[0].consumed);
    assert!(!codes[1].consumed);
}

#[test]
fn an_edit_body_carries_only_what_changed_besides_the_password() {
    let body = AccountEdit { email: Some("a@b.c".to_owned()), ..AccountEdit::default() }.to_body(&Secret::new("pw"));
    assert_eq!(concord::json::to_json_string(&body), r#"{"email":"a@b.c","password":"pw"}"#);
}
