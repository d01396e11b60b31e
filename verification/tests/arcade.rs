use nosebleed::arcade::{
    call_next_for_side, day_key, derive_status, normalize_player_name, ArcadeError, ArcadeService,
    MachineState, MachineStatus, QueueEntry, SeatCall, SeatPlayer, Side,
};
use nosebleed::arcade_model::{CLAIM_TIMEOUT_MS, MAX_PLAYER_NAME_LEN, NO_SHOW_COOLDOWN_MS};

fn service() -> ArcadeService {
    ArcadeService::new(2)
}


#[test]
fn test_side_parse_left() {
    assert_eq!(Side::parse("left"), Some(Side::Left));
    assert_eq!(Side::parse("LEFT"), Some(Side::Left));
    assert_eq!(Side::parse(" Left "), Some(Side::Left));
}

#[test]
fn test_side_parse_right() {
    assert_eq!(Side::parse("right"), Some(Side::Right));
    assert_eq!(Side::parse("RIGHT"), Some(Side::Right));
    assert_eq!(Side::parse(" Right "), Some(Side::Right));
}

#[test]
fn test_side_parse_invalid() {
    assert_eq!(Side::parse(""), None);
    assert_eq!(Side::parse("foo"), None);
    assert_eq!(Side::parse("lefty"), None);
}

#[test]
fn test_side_opposite() {
    assert_eq!(Side::Left.opposite(), Side::Right);
    assert_eq!(Side::Right.opposite(), Side::Left);
}


#[test]
fn test_arcade_service_new_creates_correct_machine_count() {
    let mut svc = service();
    let overview = svc.overview();
    assert_eq!(overview.machines.len(), 2);
}

#[test]
fn test_arcade_service_new_at_least_one_machine() {
    let mut svc = ArcadeService::new(0);
    let overview = svc.overview();
    assert_eq!(overview.machines.len(), 1, "must create at least 1 machine");
}

#[test]
fn test_arcade_service_new_starts_free_play() {
    let mut svc = service();
    let overview = svc.overview();
    for machine in &overview.machines {
        assert_eq!(machine.status, MachineStatus::FreePlay);
        assert!(machine.left_player.is_none());
        assert!(machine.right_player.is_none());
        assert_eq!(
            machine.left_queue_len, 0,
            "initial left queue should be empty"
        );
        assert_eq!(machine.right_queue_len, 0);
    }
}

#[test]
fn test_arcade_overview_has_constants() {
    let mut svc = service();
    let overview = svc.overview();
    assert!(overview.claim_timeout_ms > 0);
    assert!(overview.no_show_cooldown_ms > 0);
    assert!(overview.now_unix_ms > 0);
}


#[test]
fn test_seat_claim_flow() {
    let mut svc = service();

    // Join left queue
    let join = svc
        .join_queue(1, "Alice".into(), Side::Left)
        .expect("Alice joins left queue");
    assert_eq!(join.position, 1);

    // Since no one is seated left and left queue was empty, Alice should be
    // called immediately. Claim the seat.
    let claim = svc
        .claim_seat(1, join.ticket_id)
        .expect("Alice claims seat");
    assert_eq!(claim.left_player, Some("Alice".to_string()));

    // Verify machine status — still FreePlay because right seat is empty
    assert_eq!(claim.status, MachineStatus::FreePlay);
}

#[test]
fn test_same_player_cannot_claim_twice() {
    let mut svc = service();

    let join = svc
        .join_queue(1, "Bob".into(), Side::Right)
        .expect("Bob joins right");
    svc.claim_seat(1, join.ticket_id).expect("Bob claims seat");

    // Bob tries to claim again — should fail (no active call)
    let result = svc.claim_seat(1, join.ticket_id);
    assert!(result.is_err());
}


#[test]
fn test_queue_fifo_ordering() {
    let mut svc = service();

    // Alice and Bob join left queue
    let alice = svc
        .join_queue(1, "Alice".into(), Side::Left)
        .expect("Alice joins");
    let _bob = svc
        .join_queue(1, "Bob".into(), Side::Left)
        .expect("Bob joins");

    // Alice claims left seat
    svc.claim_seat(1, alice.ticket_id)
        .expect("Alice claims seat");

    // Charlie joins right queue and claims right seat so we can play a round
    let charlie = svc
        .join_queue(1, "Charlie".into(), Side::Right)
        .expect("Charlie joins");
    svc.claim_seat(1, charlie.ticket_id)
        .expect("Charlie claims seat");

    // End round — Alice loses, so left seat becomes free.
    // call_next_for_side should pick Bob from the queue.
    svc.end_round(1, Side::Right, 0, 10)
        .expect("end round, Charlie wins");

    // Now Bob should be called for the left seat
    let machine = svc.machine(1).expect("get machine 1");
    let called = machine.called.expect("should have a seat call for Bob");
    assert_eq!(called.player_name, "Bob");
}


#[test]
fn test_player_already_seated_cannot_queue() {
    let mut svc = service();

    let join = svc
        .join_queue(1, "Charlie".into(), Side::Right)
        .expect("Charlie joins");
    svc.claim_seat(1, join.ticket_id).expect("Charlie claims");

    // Charlie tries to queue again
    let result = svc.join_queue(1, "Charlie".into(), Side::Left);
    assert!(result.is_err(), "already seated player should be rejected");
    if let Err(err) = result {
        assert!(matches!(err, ArcadeError::Conflict(_)));
    }
}


#[test]
fn test_player_with_active_ticket_cannot_queue_again() {
    let mut svc = service();

    svc.join_queue(1, "Dave".into(), Side::Left)
        .expect("Dave joins left");

    let result = svc.join_queue(1, "Dave".into(), Side::Right);
    assert!(
        result.is_err(),
        "player with active ticket should be rejected"
    );
}


#[test]
fn test_leave_queue_removes_ticket() {
    let mut svc = service();

    let join = svc
        .join_queue(1, "Eve".into(), Side::Left)
        .expect("Eve joins");
    assert_eq!(join.position, 1);

    let machine = svc
        .leave_queue(1, join.ticket_id)
        .expect("Eve leaves queue");
    assert_eq!(
        machine.left_queue.len(),
        0,
        "leave queue should clear left queue"
    );
}

#[test]
fn test_leave_queue_unknown_ticket_returns_not_found() {
    let mut svc = service();
    let result = svc.leave_queue(1, 99999);
    assert!(result.is_err());
    assert!(matches!(result.unwrap_err(), ArcadeError::NotFound(_)));
}

#[test]
fn test_leave_queue_zero_ticket_bad_request() {
    let mut svc = service();
    let result = svc.leave_queue(1, 0);
    assert!(result.is_err());
    assert!(matches!(result.unwrap_err(), ArcadeError::BadRequest(_)));
}


#[test]
fn test_machine_not_found() {
    let mut svc = service();
    let result = svc.machine(999);
    assert!(result.is_err());
    assert!(matches!(result.unwrap_err(), ArcadeError::NotFound(_)));
}


#[test]
fn test_normalize_player_name_trims_and_downcases_key() {
    let (display, key) = normalize_player_name("  Alice  ").expect("normalize name");
    assert_eq!(display, "Alice");
    assert_eq!(key, "alice");
}

#[test]
fn test_normalize_player_name_empty_fails() {
    let result = normalize_player_name("");
    assert!(result.is_err());
    assert!(matches!(result.unwrap_err(), ArcadeError::BadRequest(_)));
}

#[test]
fn test_normalize_player_name_truncates_long_names() {
    let long = "a".repeat(50);
    let (display, key) = normalize_player_name(&long).expect("normalize long name");
    assert_eq!(display.len(), MAX_PLAYER_NAME_LEN);
    assert_eq!(key.len(), MAX_PLAYER_NAME_LEN);
}


#[test]
fn test_derive_status_free_play_both_empty() {
    let m = MachineState {
        id: 1,
        name: "test".into(),
        status: MachineStatus::FreePlay,
        left_player: None,
        right_player: None,
        left_queue: vec![],
        right_queue: vec![],
        called: None,
        last_round: None,
    };
    assert_eq!(derive_status(&m), MachineStatus::FreePlay);
}

#[test]
fn test_derive_status_match_live_both_seated() {
    let m = MachineState {
        id: 1,
        name: "test".into(),
        status: MachineStatus::FreePlay,
        left_player: Some(SeatPlayer {
            player_name: "A".into(),
            player_key: "a".into(),
        }),
        right_player: Some(SeatPlayer {
            player_name: "B".into(),
            player_key: "b".into(),
        }),
        left_queue: vec![],
        right_queue: vec![],
        called: None,
        last_round: None,
    };
    assert_eq!(derive_status(&m), MachineStatus::MatchLive);
}

#[test]
fn test_derive_status_seat_call() {
    let m = MachineState {
        id: 1,
        name: "test".into(),
        status: MachineStatus::FreePlay,
        left_player: None,
        right_player: None,
        left_queue: vec![],
        right_queue: vec![],
        called: Some(SeatCall {
            side: Side::Left,
            ticket_id: 1,
            player_name: "A".into(),
            player_key: "a".into(),
            expires_unix_ms: 99999,
        }),
        last_round: None,
    };
    assert_eq!(derive_status(&m), MachineStatus::SeatCall);
}


#[test]
fn test_end_round_requires_both_players() {
    let mut svc = service();

    // Only seat left player
    let join = svc
        .join_queue(1, "Frank".into(), Side::Left)
        .expect("Frank joins");
    svc.claim_seat(1, join.ticket_id).expect("Frank claims");

    let result = svc.end_round(1, Side::Left, 10, 5);
    assert!(
        result.is_err(),
        "end_round without right player should fail"
    );
}


#[test]
fn test_call_next_for_side_noop_when_seat_occupied() {
    let mut m = MachineState {
        id: 1,
        name: "test".into(),
        status: MachineStatus::FreePlay,
        left_player: Some(SeatPlayer {
            player_name: "A".into(),
            player_key: "a".into(),
        }),
        right_player: None,
        left_queue: vec![QueueEntry {
            ticket_id: 10,
            player_name: "B".into(),
            player_key: "b".into(),
            joined_unix_ms: 0,
        }],
        right_queue: vec![],
        called: None,
        last_round: None,
    };
    // call_next_for_side left — should NOT override seated player
    call_next_for_side(&mut m, Side::Left, 1000, 20000);
    assert!(m.called.is_none(), "should not call when seat is occupied");
    assert_eq!(m.status, MachineStatus::FreePlay);
}

#[test]
fn test_day_key_division() {
    let day = day_key(86_400_001);
    assert_eq!(day, 1, "86_400_001 ms is day 1");
    assert_eq!(day_key(0), 0);
    assert_eq!(day_key(86_399_999), 0);
    assert_eq!(day_key(86_400_000), 1);
}

fn seated(svc: &mut ArcadeService, now: u64, name: &str, side: Side) -> u64 {
    let join = svc.join_queue_at(now, 1, name.to_string(), side).unwrap();
    svc.claim_seat_at(now, 1, join.ticket_id).unwrap();
    join.ticket_id
}

#[test]
fn error_statuses_and_messages() {
    let bad = ArcadeError::BadRequest("a".to_string());
    let missing = ArcadeError::NotFound("b".to_string());
    let conflict = ArcadeError::Conflict("c".to_string());
    assert_eq!((bad.status_code(), bad.message()), (400, "a"));
    assert_eq!((missing.status_code(), missing.message()), (404, "b"));
    assert_eq!((conflict.status_code(), conflict.message()), (409, "c"));
}

#[test]
fn a_call_runs_out_and_the_player_waits() {
    let mut svc = service();
    let join = svc.join_queue_at(1_000, 1, "Alice".to_string(), Side::Left).unwrap();
    let called = join.machine.called.unwrap();
    assert_eq!(called.expires_unix_ms, 1_000 + CLAIM_TIMEOUT_MS);
    assert_eq!(called.remaining_ms, CLAIM_TIMEOUT_MS);

    let late = 1_000 + CLAIM_TIMEOUT_MS + 1;
    let machine = svc.machine_at(late, 1).unwrap();
    assert!(machine.called.is_none());
    let again = svc.join_queue_at(late, 1, "alice".to_string(), Side::Right);
    assert!(matches!(again, Err(ArcadeError::Conflict(_))));
    let allowed = late + NO_SHOW_COOLDOWN_MS;
    assert!(svc.join_queue_at(allowed, 1, "alice".to_string(), Side::Right).is_ok());
}

#[test]
fn the_winner_stays_and_the_loser_leaves() {
    let mut svc = service();
    seated(&mut svc, 5, "Ann", Side::Left);
    seated(&mut svc, 6, "Ben", Side::Right);
    let next = svc.join_queue_at(7, 1, "Cat".to_string(), Side::Right).unwrap();
    let machine = svc.end_round_at(8, 1, Side::Left, 30, 20).unwrap();
    assert_eq!(machine.left_player.as_deref(), Some("Ann"));
    assert!(machine.right_player.is_none());
    assert_eq!(machine.called.unwrap().ticket_id, next.ticket_id);
    let round = machine.last_round.unwrap();
    assert_eq!((round.left_score, round.right_score, round.ended_unix_ms), (30, 20, 8));
    assert_eq!(round.winner_side, Side::Left);
}

#[test]
fn the_best_of_the_day_come_first() {
    let mut svc = service();
    seated(&mut svc, 5, "Ann", Side::Left);
    seated(&mut svc, 6, "Ben", Side::Right);
    let machine = svc.end_round_at(8, 1, Side::Left, 30, 20).unwrap();
    let names: Vec<(&str, u32)> =
        machine.daily_top.iter().map(|row| (row.player_name.as_str(), row.score)).collect();
    assert_eq!(names, vec![("Ann", 30), ("Ben", 20)]);
    let overview = svc.overview_at(9);
    assert_eq!(overview.daily_global_top[0].player_name, "Ann");
    assert_eq!(overview.daily_global_top[0].score, 30);
    let tomorrow = svc.overview_at(86_400_000 + 9);
    assert_eq!(tomorrow.daily_global_top.len(), 0);
}

#[test]
fn a_score_never_falls() {
    let mut svc = service();
    seated(&mut svc, 5, "Ann", Side::Left);
    seated(&mut svc, 6, "Ben", Side::Right);
    svc.end_round_at(8, 1, Side::Left, 30, 20).unwrap();
    seated(&mut svc, 9, "Ben", Side::Right);
    let machine = svc.end_round_at(10, 1, Side::Left, 5, 50).unwrap();
    let rows: Vec<(&str, u32)> =
        machine.daily_top.iter().map(|row| (row.player_name.as_str(), row.score)).collect();
    assert_eq!(rows, vec![("Ben", 50), ("Ann", 30)]);
}

#[test]
fn a_wrong_ticket_is_refused() {
    let mut svc = service();
    let join = svc.join_queue_at(1, 1, "Ann".to_string(), Side::Left).unwrap();
    assert!(matches!(svc.claim_seat_at(2, 1, 0), Err(ArcadeError::BadRequest(_))));
    assert!(matches!(svc.claim_seat_at(2, 1, join.ticket_id + 1), Err(ArcadeError::Conflict(_))));
    assert!(matches!(svc.claim_seat_at(2, 9, join.ticket_id), Err(ArcadeError::NotFound(_))));
    let machine = svc.machine_at(3, 1).unwrap();
    assert_eq!(machine.called.unwrap().ticket_id, join.ticket_id);
}

#[test]
fn joining_a_missing_machine_takes_nothing() {
    let mut svc = service();
    let refused = svc.join_queue_at(1, 7, "Ann".to_string(), Side::Left);
    assert!(matches!(refused, Err(ArcadeError::NotFound(_))));
    let join = svc.join_queue_at(1, 1, "Ann".to_string(), Side::Left).unwrap();
    assert_eq!(join.position, 1);
}

#[test]
fn leaving_undoes_joining() {
    let mut svc = service();
    seated(&mut svc, 1, "Ann", Side::Left);
    let before = svc.machine_at(2, 1).unwrap();
    let join = svc.join_queue_at(3, 1, "Ben".to_string(), Side::Left).unwrap();
    assert_eq!(join.position, 1);
    let after = svc.leave_queue_at(4, 1, join.ticket_id).unwrap();
    assert_eq!(before.left_queue.len(), after.left_queue.len());
    assert_eq!(before.left_player, after.left_player);
}

#[test]
fn whoever_waits_for_a_free_seat_is_called() {
    let mut svc = ArcadeService::new(1);
    let alice = svc.join_queue(1, "Alice".to_string(), Side::Left).unwrap();
    let bob = svc.join_queue(1, "Bob".to_string(), Side::Right).unwrap();
    assert_eq!((alice.ticket_id, bob.ticket_id), (1, 2));
    let machine = svc.leave_queue(1, 1).unwrap();
    let called = machine.called.unwrap();
    assert_eq!((called.side, called.ticket_id), (Side::Right, 2));
    assert_eq!(called.player_name, "Bob");
    assert_eq!(machine.status, MachineStatus::SeatCall);
}

#[test]
fn a_missed_call_goes_on_to_the_other_side() {
    let mut svc = service();
    svc.join_queue_at(1, 1, "Ann".to_string(), Side::Left).unwrap();
    let ben = svc.join_queue_at(2, 1, "Ben".to_string(), Side::Right).unwrap();
    let late = 1 + CLAIM_TIMEOUT_MS;
    let machine = svc.machine_at(late, 1).unwrap();
    let called = machine.called.unwrap();
    assert_eq!((called.side, called.ticket_id), (Side::Right, ben.ticket_id));
    assert_eq!(called.expires_unix_ms, late + CLAIM_TIMEOUT_MS);
    assert!(machine.left_queue.is_empty());
}

#[test]
fn one_place_for_each_player() {
    let mut svc = service();
    seated(&mut svc, 1, "Ann", Side::Left);
    svc.join_queue_at(2, 2, "Ben".to_string(), Side::Left).unwrap();
    for name in ["ANN", " ann ", "ben", "Ben"] {
        let refused = svc.join_queue_at(3, 1, name.to_string(), Side::Right);
        assert!(matches!(refused, Err(ArcadeError::Conflict(_))), "{name}");
    }
}

#[test]
fn the_best_of_all_machines_is_the_best_of_the_arcade() {
    let mut svc = service();
    seated(&mut svc, 1, "Ann", Side::Left);
    seated(&mut svc, 2, "Ben", Side::Right);
    svc.end_round_at(3, 1, Side::Left, 50, 20).unwrap();
    let join = svc.join_queue_at(4, 2, "BEN".to_string(), Side::Left).unwrap();
    svc.claim_seat_at(5, 2, join.ticket_id).unwrap();
    let join = svc.join_queue_at(6, 2, "Cat".to_string(), Side::Right).unwrap();
    svc.claim_seat_at(7, 2, join.ticket_id).unwrap();
    svc.end_round_at(8, 2, Side::Left, 30, 40).unwrap();
    let overview = svc.overview_at(9);
    let rows: Vec<(String, u32)> =
        overview.daily_global_top.into_iter().map(|row| (row.player_name, row.score)).collect();
    assert_eq!(
        rows,
        vec![("Ann".to_string(), 50), ("Cat".to_string(), 40), ("BEN".to_string(), 30)]
    );
    let first = svc.machine_at(9, 1).unwrap();
    assert_eq!(first.daily_top[1].score, 20);
}
