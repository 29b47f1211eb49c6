use concord::ids::Id;
use concord::rest::onboarding::{Onboarding, OnboardingOption, OnboardingQuestion, OnboardingRow};

fn question(required: bool, option_ids: &[u64]) -> OnboardingQuestion {
    OnboardingQuestion {
        id: 1,
        title: "What brings you here?".to_owned(),
        single_select: true,
        required,
        options: option_ids
            .iter()
            .map(|id| OnboardingOption {
                id: *id,
                title: format!("Option {id}"),
                description: None,
                role_ids: Vec::new(),
                channel_ids: Vec::new(),
            })
            .collect(),
    }
}

#[test]
fn an_optional_question_needs_no_answer() {
    assert!(question(false, &[10, 11]).is_answered_by(&[]));
}

#[test]
fn a_required_question_needs_one_of_its_own_options() {
    let question = question(true, &[10, 11]);

    assert!(!question.is_answered_by(&[]));
    assert!(question.is_answered_by(&[11]));
    assert!(!question.is_answered_by(&[99]));
}

#[test]
fn the_unanswered_questions_are_named_not_counted() {
    let onboarding = Onboarding {
        enabled: true,
        questions: vec![
            question(true, &[10]),
            OnboardingQuestion { id: 2, title: "Which topics?".to_owned(), ..question(true, &[20]) },
        ],
    };

    assert_eq!(onboarding.unanswered(&[]).len(), 2);
    assert_eq!(onboarding.unanswered(&[10]), vec!["Which topics?"]);
    assert!(onboarding.unanswered(&[10, 20]).is_empty());
}

#[test]
fn an_option_says_what_it_grants() {
    let option = OnboardingOption {
        id: 1,
        title: "Gamer".to_owned(),
        description: None,
        role_ids: vec![Id::new(7)],
        channel_ids: vec![Id::new(8), Id::new(9)],
    };
    let summary = option.summary();

    assert!(summary.contains("1 role"));
    assert!(summary.contains("2 channels"));
}

#[test]
fn an_option_that_grants_nothing_says_so_rather_than_nothing() {
    let option = OnboardingOption {
        id: 1,
        title: "Just looking".to_owned(),
        description: None,
        role_ids: Vec::new(),
        channel_ids: Vec::new(),
    };
    assert!(option.summary().contains("no roles or channels"));
}

#[test]
fn a_question_says_whether_one_answer_or_several() {
    assert!(question(true, &[10]).summary().contains("pick one"));
    assert!(OnboardingQuestion { single_select: false, ..question(false, &[10]) }.summary().contains("pick any"));
}

fn onboarding(single_select: bool) -> Onboarding {
    Onboarding {
        enabled: true,
        questions: vec![
            OnboardingQuestion {
                id: 1,
                title: "What brings you here?".to_owned(),
                single_select,
                required: true,
                options: [10, 11]
                    .into_iter()
                    .map(|id| OnboardingOption {
                        id,
                        title: format!("Option {id}"),
                        description: None,
                        role_ids: Vec::new(),
                        channel_ids: Vec::new(),
                    })
                    .collect(),
            },
            OnboardingQuestion {
                id: 2,
                title: "Which topics?".to_owned(),
                single_select: false,
                required: false,
                options: vec![OnboardingOption {
                    id: 20,
                    title: "Rust".to_owned(),
                    description: None,
                    role_ids: Vec::new(),
                    channel_ids: Vec::new(),
                }],
            },
        ],
    }
}

#[test]
fn a_question_row_is_not_an_option_row() {
    let rows = onboarding(true).rows(&[]);
    assert!(rows[0].option_id().is_none());
    assert_eq!(rows[1].option_id(), Some(10));
}

#[test]
fn a_single_select_question_replaces_its_answer() {
    let onboarding = onboarding(true);
    let picked = onboarding.toggled(&[10], 11);
    assert_eq!(picked, vec![11]);
}

#[test]
fn a_multi_select_question_keeps_both() {
    let onboarding = onboarding(false);
    let mut picked = onboarding.toggled(&[10], 11);
    picked.sort_unstable();
    assert_eq!(picked, vec![10, 11]);
}

#[test]
fn replacing_one_answer_leaves_other_questions_alone() {
    let onboarding = onboarding(true);
    let mut picked = onboarding.toggled(&[10, 20], 11);
    picked.sort_unstable();
    assert_eq!(picked, vec![11, 20]);
}

#[test]
fn picking_the_same_option_again_unpicks_it() {
    let onboarding = onboarding(true);
    assert!(onboarding.toggled(&[10], 10).is_empty());
}

#[test]
fn an_unknown_option_changes_nothing() {
    let onboarding = onboarding(true);
    assert_eq!(onboarding.toggled(&[10], 999), vec![10]);
}

#[test]
fn a_question_row_says_when_it_still_needs_an_answer() {
    let onboarding = onboarding(true);
    let OnboardingRow::Question { unanswered, .. } = &onboarding.rows(&[])[0] else {
        panic!("first row should be a question");
    };
    assert!(*unanswered);

    let OnboardingRow::Question { unanswered, .. } = &onboarding.rows(&[10])[0] else {
        panic!("first row should be a question");
    };
    assert!(!*unanswered);
}

#[test]
fn toggling_twice_restores_a_multi_select_answer() {
    let onboarding = onboarding(false);
    let once = onboarding.toggled(&[20], 10);
    let twice = onboarding.toggled(&once, 10);
    assert_eq!(twice, vec![20]);
}
