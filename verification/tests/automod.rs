use concord::rest::automod::{AutoModAction, AutoModRule, AutoModTrigger};

fn rule(trigger: AutoModTrigger, actions: Vec<AutoModAction>) -> AutoModRule {
    AutoModRule { id: 1, name: "no links".to_owned(), enabled: true, trigger, actions }
}

#[test]
fn a_rule_says_what_fires_it_and_what_it_does() {
    let summary = rule(AutoModTrigger::Keyword, vec![AutoModAction::BlockMessage, AutoModAction::TimeoutUser]).summary();

    assert!(summary.contains("Keywords"));
    assert!(summary.contains("block the message"));
    assert!(summary.contains("time the member out"));
}

#[test]
fn a_rule_with_no_actions_says_so_rather_than_reading_as_broken() {
    let summary = rule(AutoModTrigger::Spam, Vec::new()).summary();
    assert!(summary.contains("do nothing"), "got {summary:?}");
}

#[test]
fn unrecognised_triggers_and_actions_are_shown_rather_than_hidden() {
    let summary = rule(AutoModTrigger::Unknown(9), vec![AutoModAction::Unknown(7)]).summary();

    assert!(summary.contains('9'));
    assert!(summary.contains('7'));
}

#[test]
fn known_codes_map_to_the_right_trigger() {
    assert_eq!(AutoModTrigger::from_code(1), AutoModTrigger::Keyword);
    assert_eq!(AutoModTrigger::from_code(3), AutoModTrigger::Spam);
    assert_eq!(AutoModTrigger::from_code(4), AutoModTrigger::KeywordPreset);
    assert_eq!(AutoModTrigger::from_code(5), AutoModTrigger::MentionSpam);
    assert_eq!(AutoModTrigger::from_code(2), AutoModTrigger::Unknown(2));

    assert_eq!(AutoModAction::from_code(1), AutoModAction::BlockMessage);
    assert_eq!(AutoModAction::from_code(3), AutoModAction::TimeoutUser);
}
