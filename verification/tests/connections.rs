use concord::rest::connections::{Connection, ConnectionVisibility};

fn connection(verified: bool, show_activity: bool) -> Connection {
    Connection {
        id: "1".to_owned(),
        kind: "github".to_owned(),
        name: "someone".to_owned(),
        verified,
        show_activity,
        visibility: ConnectionVisibility::Everyone,
    }
}

#[test]
fn an_unverified_connection_says_so() {
    assert!(connection(false, false).summary().contains("unverified"));
    assert!(!connection(true, false).summary().contains("unverified"));
}

#[test]
fn visibility_round_trips_and_toggles() {
    for visibility in [ConnectionVisibility::Hidden, ConnectionVisibility::Everyone] {
        assert_eq!(ConnectionVisibility::from_code(u64::from(visibility.code())), visibility);
        assert_eq!(visibility.toggled().toggled(), visibility);
    }
}

#[test]
fn an_unknown_visibility_reads_as_hidden() {
    assert_eq!(ConnectionVisibility::from_code(99), ConnectionVisibility::Hidden);
}
