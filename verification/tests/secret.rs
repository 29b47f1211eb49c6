use concord::secret::Secret;

#[test]
fn the_value_survives_for_the_request_that_needs_it() {
    assert_eq!(Secret::new("hunter2").expose(), "hunter2");
}

#[test]
fn neither_formatter_reveals_the_value() {
    // `Secret` has neither formatter; its printed form is `to_string`.
    let secret = Secret::new("hunter2");
    assert_eq!(secret.to_string(), "[redacted]");
    assert!(!secret.to_string().contains("hunter2"));
}
