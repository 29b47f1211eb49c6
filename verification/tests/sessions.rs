use concord::rest::sessions::{AuthSession, AuthorisedApp};

fn session(current: bool, location: Option<&str>) -> AuthSession {
    AuthSession {
        id_hash: "abc".to_owned(),
        os: "Linux".to_owned(),
        platform: "Desktop".to_owned(),
        location: location.map(str::to_owned),
        last_used: None,
        current,
    }
}

#[test]
fn the_session_doing_the_asking_says_so() {
    assert!(session(true, Some("Berlin")).summary().contains("this session"));
    assert!(!session(false, Some("Berlin")).summary().contains("this session"));
}

#[test]
fn a_session_discord_could_not_place_says_so_rather_than_showing_a_gap() {
    assert!(session(false, None).summary().contains("location unknown"));
}

#[test]
fn a_last_used_time_appears_when_discord_gives_one() {
    let mut session = session(false, Some("Berlin"));
    assert!(!session.summary().contains("last used"));

    session.last_used = Some("2026-08-01".to_owned());
    assert!(session.summary().contains("last used 2026-08-01"));
}

#[test]
fn an_app_with_no_scopes_says_so_rather_than_reading_as_broken() {
    let app = AuthorisedApp { id: "1".to_owned(), name: "Bot".to_owned(), scopes: Vec::new() };
    assert!(app.summary().contains("no permissions"));
}

#[test]
fn an_app_lists_every_scope_it_was_granted() {
    let app = AuthorisedApp {
        id: "1".to_owned(),
        name: "Bot".to_owned(),
        scopes: vec!["identify".to_owned(), "guilds.join".to_owned()],
    };
    let summary = app.summary();

    assert!(summary.contains("identify"));
    assert!(summary.contains("guilds.join"));
}
