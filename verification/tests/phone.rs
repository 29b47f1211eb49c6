use concord::rest::phone::{phone_number_problem, token_from_body, PhoneChangeReason};

#[test]
fn a_well_formed_number_is_accepted() {
    assert_eq!(phone_number_problem("+441632960001"), None);
    assert_eq!(phone_number_problem("  +441632960001 "), None);
}

#[test]
fn a_number_without_a_country_code_is_refused_with_the_reason() {
    assert!(phone_number_problem("07700900001").is_some_and(|problem| problem.contains("country code")));
}

#[test]
fn separators_people_type_are_refused_rather_than_silently_stripped() {
    for input in ["+44 1632 960001", "+44-1632-960001", "+44(1632)960001"] {
        assert!(phone_number_problem(input).is_some(), "{input} was accepted");
    }
}

#[test]
fn lengths_outside_e164_are_refused() {
    assert!(phone_number_problem("+1").is_some());
    assert!(phone_number_problem(&format!("+{}", "1".repeat(16))).is_some());
    assert_eq!(phone_number_problem(&format!("+{}", "1".repeat(15))), None);
}

#[test]
fn an_empty_number_is_refused() {
    assert!(phone_number_problem("").is_some());
    assert!(phone_number_problem("+").is_some());
}

#[test]
fn the_reason_discord_records_is_sent_verbatim() {
    assert_eq!(PhoneChangeReason::GuildVerification.as_str(), "guild_phone_required");
    assert_eq!(PhoneChangeReason::EnableSmsMfa.as_str(), "mfa_phone_update");
}

#[test]
fn a_missing_token_is_an_error_rather_than_an_empty_one() {
    assert!(token_from_body(None).is_err());
    assert_eq!(token_from_body(Some("t".to_owned())).unwrap().as_str(), "t");
}
