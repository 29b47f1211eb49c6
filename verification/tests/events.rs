use concord::rest::events::{EventLocation, EventStatus, GuildTemplate, ScheduledEvent};

fn event(status: EventStatus, location: EventLocation) -> ScheduledEvent {
    ScheduledEvent {
        id: 1,
        name: "Games night".to_owned(),
        description: None,
        starts_at: Some("2026-09-01T19:00:00Z".to_owned()),
        status,
        location,
        interested: Some(4),
    }
}

#[test]
fn only_an_event_that_has_not_finished_can_be_cancelled() {
    assert!(EventStatus::Scheduled.is_cancellable());
    assert!(EventStatus::Active.is_cancellable());
    assert!(!EventStatus::Completed.is_cancellable());
    assert!(!EventStatus::Cancelled.is_cancellable());
    assert!(!EventStatus::Unknown(9).is_cancellable());
}

#[test]
fn known_status_codes_map_to_the_right_status() {
    assert_eq!(EventStatus::from_code(1), EventStatus::Scheduled);
    assert_eq!(EventStatus::from_code(2), EventStatus::Active);
    assert_eq!(EventStatus::from_code(3), EventStatus::Completed);
    assert_eq!(EventStatus::from_code(4), EventStatus::Cancelled);
    assert_eq!(EventStatus::from_code(0), EventStatus::Unknown(0));
}

#[test]
fn an_unrecognised_status_is_shown_rather_than_hidden() {
    assert!(EventStatus::Unknown(9).label().contains('9'));
}

#[test]
fn an_event_with_nowhere_to_be_says_so() {
    let summary = event(EventStatus::Scheduled, EventLocation::Unknown).summary();
    assert!(summary.contains("no location"), "got {summary:?}");

    let summary = event(EventStatus::Scheduled, EventLocation::External(String::new())).summary();
    assert!(summary.contains("no location"), "got {summary:?}");
}

#[test]
fn an_external_location_is_shown_as_given() {
    let summary = event(EventStatus::Scheduled, EventLocation::External("The pub".to_owned())).summary();
    assert!(summary.contains("The pub"));
}

#[test]
fn an_event_summary_reads_in_order() {
    let summary = event(EventStatus::Active, EventLocation::External("The pub".to_owned())).summary();
    assert_eq!(summary, "happening now - 2026-09-01T19:00:00Z - The pub - 4 interested");
}

#[test]
fn a_template_behind_its_server_says_so() {
    let stale = GuildTemplate {
        code: "abc".to_owned(),
        name: "Base".to_owned(),
        description: None,
        usage_count: 3,
        is_dirty: true,
    };
    assert!(stale.summary().contains("out of date"));

    let fresh = GuildTemplate { is_dirty: false, ..stale.clone() };
    assert!(!fresh.summary().contains("out of date"));
}

#[test]
fn a_template_url_is_the_link_people_share() {
    let template = GuildTemplate {
        code: "abc".to_owned(),
        name: "Base".to_owned(),
        description: None,
        usage_count: 0,
        is_dirty: false,
    };
    assert_eq!(template.url(), "https://discord.new/abc");
}
