use flottery::raffle::{JoinReply, Raffle};
use flottery::registry::{outcome_from, CreateOutcome, JoinOutcome, Message, Registry, Reply};

#[test]
fn scenario_create_then_join() {
    let mut reg = Registry::new();
    assert_eq!(reg.create_raffle("abc".to_owned()), CreateOutcome::Created);
    let id = "abc".to_owned();
    assert_eq!(
        reg.route_join(&id, "1.2.3.4".to_owned()),
        JoinOutcome::Joined(1)
    );
    assert_eq!(
        reg.route_join(&id, "1.2.3.4".to_owned()),
        JoinOutcome::Rejoined(1)
    );
    assert_eq!(
        reg.route_join(&id, "5.6.7.8".to_owned()),
        JoinOutcome::Joined(2)
    );
}

#[test]
fn repeat_joins_only_first_is_joined() {
    let mut raffle = Raffle::new();
    assert_eq!(raffle.join("alice".to_owned()), JoinReply::Joined(1));
    assert_eq!(raffle.join("bob".to_owned()), JoinReply::Joined(2));
    // Every later join of the same identity, however many others joined in
    // between, answers Rejoined with the identical number.
    assert_eq!(raffle.join("alice".to_owned()), JoinReply::Rejoined(1));
    assert_eq!(raffle.join("carol".to_owned()), JoinReply::Joined(3));
    assert_eq!(raffle.join("alice".to_owned()), JoinReply::Rejoined(1));
    assert_eq!(raffle.join("bob".to_owned()), JoinReply::Rejoined(2));
    assert_eq!(raffle.join("alice".to_owned()), JoinReply::Rejoined(1));
    assert_eq!(raffle.member_count(), 3);
}

#[test]
fn distinct_users_get_contiguous_numbers_in_order() {
    let mut raffle = Raffle::new();
    for i in 0..50usize {
        let user = format!("user-{i}");
        assert_eq!(raffle.join(user), JoinReply::Joined(i + 1));
    }
    assert_eq!(raffle.member_count(), 50);
}

#[test]
fn raffles_do_not_influence_each_other() {
    let mut reg = Registry::new();
    assert_eq!(reg.create_raffle("left".to_owned()), CreateOutcome::Created);
    assert_eq!(reg.create_raffle("right".to_owned()), CreateOutcome::Created);
    let left = "left".to_owned();
    let right = "right".to_owned();
    // Interleaved joins to both raffles; each raffle numbers its own
    // members 1, 2, ... independently, even for the same identity.
    assert_eq!(reg.route_join(&left, "a".to_owned()), JoinOutcome::Joined(1));
    assert_eq!(reg.route_join(&right, "z".to_owned()), JoinOutcome::Joined(1));
    assert_eq!(reg.route_join(&left, "b".to_owned()), JoinOutcome::Joined(2));
    assert_eq!(reg.route_join(&right, "a".to_owned()), JoinOutcome::Joined(2));
    assert_eq!(reg.route_join(&left, "a".to_owned()), JoinOutcome::Rejoined(1));
    assert_eq!(reg.route_join(&right, "y".to_owned()), JoinOutcome::Joined(3));
    assert_eq!(reg.raffle_size(&left), Some(2));
    assert_eq!(reg.raffle_size(&right), Some(3));
}

#[test]
fn unknown_raffle_is_not_found() {
    let mut reg = Registry::new();
    let ghost_id = "never-created".to_owned();
    assert_eq!(
        reg.route_join(&ghost_id, "1.2.3.4".to_owned()),
        JoinOutcome::NotFound
    );
    // Still not found once unrelated raffles exist.
    assert_eq!(reg.create_raffle("real".to_owned()), CreateOutcome::Created);
    assert_eq!(
        reg.route_join(&ghost_id, "1.2.3.4".to_owned()),
        JoinOutcome::NotFound
    );
    assert_eq!(reg.raffle_size(&ghost_id), None);
}

#[test]
fn duplicate_raffle_id_is_rejected() {
    let mut reg = Registry::new();
    assert_eq!(reg.create_raffle("abc".to_owned()), CreateOutcome::Created);
    let id = "abc".to_owned();
    assert_eq!(reg.route_join(&id, "member".to_owned()), JoinOutcome::Joined(1));
    // A second creation under the same identifier is rejected, and the
    // existing raffle keeps its membership.
    assert_eq!(reg.create_raffle("abc".to_owned()), CreateOutcome::DuplicateId);
    assert_eq!(reg.raffle_size(&id), Some(1));
    assert_eq!(
        reg.route_join(&id, "member".to_owned()),
        JoinOutcome::Rejoined(1)
    );
}

#[test]
fn stress_five_hundred_users_submitted_twice() {
    // 500 distinct identities, each submitted exactly twice, with the
    // retries interleaved among first joins in arrival order (the per-
    // raffle queue serializes concurrent submissions in exactly this way).
    let mut reg = Registry::new();
    assert_eq!(reg.create_raffle("r".to_owned()), CreateOutcome::Created);
    let id = "r".to_owned();
    let mut outcomes: Vec<Vec<JoinOutcome>> = (0..500).map(|_| Vec::new()).collect();
    for i in 0..500usize {
        let user = format!("user-{i}");
        outcomes[i].push(reg.route_join(&id, user.clone()));
        if i % 2 == 0 {
            // immediate retry
            outcomes[i].push(reg.route_join(&id, user));
        }
    }
    for i in 0..500usize {
        if i % 2 != 0 {
            // late retry
            let user = format!("user-{i}");
            outcomes[i].push(reg.route_join(&id, user));
        }
    }
    assert_eq!(reg.raffle_size(&id), Some(500));
    for (i, pair) in outcomes.iter().enumerate() {
        assert_eq!(pair.len(), 2);
        assert_eq!(pair[0], JoinOutcome::Joined(i + 1));
        assert_eq!(pair[1], JoinOutcome::Rejoined(i + 1));
    }
}

#[test]
fn handle_dispatches_both_message_kinds() {
    let mut reg = Registry::new();
    assert_eq!(
        reg.handle(Message::NewRaffle("abc".to_owned())),
        Reply::Create(CreateOutcome::Created)
    );
    assert_eq!(
        reg.handle(Message::JoinRaffle {
            raffle_id: "abc".to_owned(),
            user_id: "1.2.3.4".to_owned(),
        }),
        Reply::Join(JoinOutcome::Joined(1))
    );
    assert_eq!(
        reg.handle(Message::JoinRaffle {
            raffle_id: "other".to_owned(),
            user_id: "1.2.3.4".to_owned(),
        }),
        Reply::Join(JoinOutcome::NotFound)
    );
    assert_eq!(
        reg.handle(Message::NewRaffle("abc".to_owned())),
        Reply::Create(CreateOutcome::DuplicateId)
    );
}

#[test]
fn outcome_carries_reply_over() {
    assert_eq!(outcome_from(JoinReply::Joined(3)), JoinOutcome::Joined(3));
    assert_eq!(outcome_from(JoinReply::Rejoined(7)), JoinOutcome::Rejoined(7));
}

#[test]
fn find_member_reports_index() {
    let mut raffle = Raffle::new();
    assert_eq!(raffle.find_member(&"alice".to_owned()), None);
    raffle.join("alice".to_owned());
    raffle.join("bob".to_owned());
    assert_eq!(raffle.find_member(&"alice".to_owned()), Some(0));
    assert_eq!(raffle.find_member(&"bob".to_owned()), Some(1));
    assert_eq!(raffle.find_member(&"carol".to_owned()), None);
}
