use concord::gateway::scheduler::{
    GuildMemberRequest, GuildMemberRequestKind, GuildMemberRequestScheduler, PendingGuildMemberRequest, SentGuildMemberRequest,
};
use concord::ids::Id;

fn users_of(scheduler: &GuildMemberRequestScheduler, index: usize) -> Vec<u64> {
    match &scheduler.pending[index].request.kind {
        GuildMemberRequestKind::ByIds { user_ids, .. } => user_ids.iter().map(|id| id.get()).collect(),
        GuildMemberRequestKind::Search { .. } => panic!("a search where users were expected"),
    }
}

#[test]
fn new_requests_take_a_hundred_users_each_and_a_nonce_each() {
    let mut scheduler = GuildMemberRequestScheduler::default();
    let ids: Vec<_> = (1..=250u64).map(Id::new).collect();
    scheduler.enqueue_by_ids(Id::new(9), ids, true, 0);

    assert_eq!(scheduler.pending.len(), 3);
    assert_eq!(users_of(&scheduler, 0), (1..=100u64).collect::<Vec<_>>());
    assert_eq!(users_of(&scheduler, 1), (101..=200u64).collect::<Vec<_>>());
    assert_eq!(users_of(&scheduler, 2), (201..=250u64).collect::<Vec<_>>());
    assert_eq!(scheduler.pending[0].request.nonce, "concord-0000000000000001");
    assert_eq!(scheduler.pending[1].request.nonce, "concord-0000000000000002");
    assert_eq!(scheduler.pending[2].request.nonce, "concord-0000000000000003");
    assert_eq!(scheduler.next_nonce, 4);
}

#[test]
fn a_compatible_request_is_filled_to_a_hundred_before_a_new_one_is_made() {
    let mut scheduler = GuildMemberRequestScheduler::default();
    let first: Vec<_> = (1..=90u64).map(Id::new).collect();
    scheduler.enqueue_by_ids(Id::new(9), first, false, 0);
    assert_eq!(scheduler.pending.len(), 1);

    let second: Vec<_> = (85..=120u64).map(Id::new).collect();
    scheduler.enqueue_by_ids(Id::new(9), second, false, 0);

    assert_eq!(scheduler.pending.len(), 2);
    assert_eq!(users_of(&scheduler, 0), (1..=100u64).collect::<Vec<_>>());
    assert_eq!(users_of(&scheduler, 1), (101..=120u64).collect::<Vec<_>>());
    assert_eq!(scheduler.pending[0].request.nonce, "concord-0000000000000001");
    assert_eq!(scheduler.pending[1].request.nonce, "concord-0000000000000002");
}

#[test]
fn requests_with_other_presences_or_guilds_are_left_alone() {
    let mut scheduler = GuildMemberRequestScheduler::default();
    scheduler.enqueue_by_ids(Id::new(9), vec![Id::new(1)], true, 0);
    scheduler.enqueue_by_ids(Id::new(8), vec![Id::new(2)], false, 0);
    scheduler.enqueue_by_ids(Id::new(9), vec![Id::new(1), Id::new(3), Id::new(3)], false, 0);

    assert_eq!(scheduler.pending.len(), 3);
    assert_eq!(users_of(&scheduler, 0), vec![1]);
    assert_eq!(users_of(&scheduler, 1), vec![2]);
    assert_eq!(users_of(&scheduler, 2), vec![1, 3]);
}

#[test]
fn users_already_queued_ask_for_nothing_new() {
    let mut scheduler = GuildMemberRequestScheduler::default();
    scheduler.enqueue_by_ids(Id::new(9), vec![Id::new(1), Id::new(2)], false, 0);
    scheduler.enqueue_by_ids(Id::new(9), vec![Id::new(2), Id::new(1)], false, 0);

    assert_eq!(scheduler.pending.len(), 1);
    assert_eq!(users_of(&scheduler, 0), vec![1, 2]);
    assert_eq!(scheduler.next_nonce, 2);
}

#[test]
fn new_requests_push_out_the_oldest_searches_when_the_queue_is_full() {
    let mut scheduler = GuildMemberRequestScheduler::default();
    for guild in 1..=512u64 {
        assert!(scheduler.enqueue_search(Id::new(guild), "a".to_owned(), 10, false, format!("s{guild}"), 0));
    }
    let ids: Vec<_> = (1..=150u64).map(Id::new).collect();
    scheduler.enqueue_by_ids(Id::new(9999), ids, false, 0);

    assert_eq!(scheduler.pending.len(), 512);
    assert_eq!(scheduler.pending[0].request.nonce, "s3");
    assert_eq!(users_of(&scheduler, 510).len(), 100);
    assert_eq!(users_of(&scheduler, 511).len(), 50);
}

#[test]
fn recovering_keeps_only_the_newest_search_of_a_guild_and_holds_its_guild() {
    let search = |nonce: &str| GuildMemberRequest {
        guild_id: Id::new(9),
        nonce: nonce.to_owned(),
        kind: GuildMemberRequestKind::Search { query: "a".to_owned(), limit: 10, presences: false },
    };
    let mut scheduler = GuildMemberRequestScheduler::default();
    scheduler.awaiting_response.push(SentGuildMemberRequest { request: search("old"), sent_at: 0 });
    scheduler.awaiting_response.push(SentGuildMemberRequest { request: search("new"), sent_at: 1 });
    scheduler.pending.push(PendingGuildMemberRequest {
        request: GuildMemberRequest {
            guild_id: Id::new(9),
            nonce: "ids".to_owned(),
            kind: GuildMemberRequestKind::ByIds { user_ids: vec![Id::new(1)], presences: false },
        },
        send_at: 5,
    });
    scheduler.recover_awaiting(50);

    assert!(scheduler.awaiting_response.is_empty());
    assert_eq!(scheduler.pending.len(), 2);
    assert_eq!(scheduler.pending[0].request.nonce, "new");
    assert_eq!(scheduler.pending[0].send_at, 50);
    assert_eq!(scheduler.pending[1].request.nonce, "ids");
    assert_eq!(scheduler.pending[1].send_at, 50);
}
