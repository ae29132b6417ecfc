use zunnogame::orchestrator::{GAME_TTL_SECS, GameOrchestrator, ResultError, build_game_state};
use zunnogame::registry::RegistryError;
use zunnogame::rules::ValidationError;
use zunnogame::state::draw_card;
use zunnogame::storage::{FailureCause, GameStatus};

fn word(last: &[u8]) -> [u8; 32] {
    let mut w = [0u8; 32];
    w[32 - last.len()..].copy_from_slice(last);
    w
}

#[test]
fn initiate_succeeds_for_all_legal_params() {
    let mut orch = GameOrchestrator::new();
    let mut seen: Vec<u64> = Vec::new();
    for players in 1..=10u8 {
        for cards in 1..=20u8 {
            if (players as usize) * (cards as usize) < 108 {
                let g = orch.initiate_game(players, cards, 0).unwrap();
                assert_eq!(g.status, GameStatus::Requesting);
                assert!(!seen.contains(&g.session_id), "session id repeated");
                seen.push(g.session_id);
            } else {
                assert!(orch.initiate_game(players, cards, 0).is_err());
            }
        }
    }
    assert_eq!(orch.pending_len(), seen.len());
}

#[test]
fn initiate_rejects_bad_params_without_registering() {
    let mut orch = GameOrchestrator::new();
    assert_eq!(orch.initiate_game(0, 5, 0), Err(ValidationError::InvalidPlayerCount));
    assert_eq!(orch.initiate_game(5, 0, 0), Err(ValidationError::InvalidCardsPerPlayer));
    assert_eq!(orch.initiate_game(9, 12, 0), Err(ValidationError::NotEnoughCards));
    assert_eq!(orch.pending_len(), 0);
}

#[test]
fn many_initiates_yield_distinct_ids_and_full_registry() {
    let mut orch = GameOrchestrator::new();
    let n = 50;
    let mut ids: Vec<u64> = Vec::new();
    for _ in 0..n {
        let g = orch.initiate_game(4, 7, 0).unwrap();
        ids.push(g.session_id);
    }
    let mut sorted = ids.clone();
    sorted.sort_unstable();
    sorted.dedup();
    assert_eq!(sorted.len(), n, "ids must be pairwise distinct");
    assert_eq!(orch.pending_len(), n);
}

#[test]
fn status_never_regresses() {
    let mut orch = GameOrchestrator::new();
    let id = orch.initiate_game(4, 7, 0).unwrap().session_id;
    assert!(orch.record_vrf_request(id, 9, 1000).is_ok());
    // a second move back into WaitingForVRF is refused
    assert_eq!(orch.record_vrf_request(id, 9, 1000), Err(RegistryError::IllegalTransition));
    assert!(orch.mark_generating_proof(id).is_ok());
    // and so is failing a session that has already become terminal
    let game = build_game_state(4, 7, &word(&[1]), 9, None).unwrap();
    assert!(orch.complete_game(id, game).is_ok());
    assert_eq!(
        orch.fail_game(id, FailureCause::Upload(String::from("late"))),
        Err(RegistryError::IllegalTransition)
    );
    let status = orch.get_game_status(id, 5).unwrap();
    assert_eq!(status.status, GameStatus::Ready);
}

#[test]
fn failed_sessions_report_their_cause() {
    let mut orch = GameOrchestrator::new();
    let id = orch.initiate_game(4, 7, 0).unwrap().session_id;
    orch.fail_game(id, FailureCause::OracleUnavailable(String::from("submit failed"))).unwrap();
    let status = orch.get_game_status(id, 3).unwrap();
    assert_eq!(
        status.status,
        GameStatus::Failed(FailureCause::OracleUnavailable(String::from("submit failed")))
    );
    assert_eq!(status.elapsed_seconds, 3);
}

#[test]
fn scheduler_sees_only_unclaimed_waiting_sessions() {
    let mut orch = GameOrchestrator::new();
    let a = orch.initiate_game(4, 7, 0).unwrap().session_id;
    let b = orch.initiate_game(2, 5, 0).unwrap().session_id;
    // only `a` reaches WaitingForVRF
    orch.record_vrf_request(a, 5, 100).unwrap();
    assert_eq!(orch.games_to_check(), vec![a]);
    // claiming it hides it from the next tick; a duplicate claim is refused
    assert!(orch.begin_finalize(a));
    assert!(!orch.begin_finalize(a));
    assert_eq!(orch.games_to_check(), Vec::<u64>::new());
    orch.finish_finalize(a);
    assert_eq!(orch.games_to_check(), vec![a]);
    // `b` shows up once its request is acknowledged
    orch.record_vrf_request(b, 6, 101).unwrap();
    let mut due = orch.games_to_check();
    due.sort_unstable();
    assert_eq!(due, vec![a, b]);
}

#[test]
fn expired_waiting_session_is_swept_and_then_unknown() {
    let mut orch = GameOrchestrator::new();
    let stale = orch.initiate_game(4, 7, 0).unwrap().session_id;
    orch.record_vrf_request(stale, 5, 100).unwrap();
    let fresh = orch.initiate_game(4, 7, 500).unwrap().session_id;
    let removed = orch.cleanup_expired_games(GAME_TTL_SECS + 1);
    assert_eq!(removed, 1);
    assert_eq!(orch.get_game_status(stale, GAME_TTL_SECS + 1), Err(RegistryError::NotFound));
    assert!(orch.get_game_status(fresh, GAME_TTL_SECS + 1).is_ok());
}

#[test]
fn ready_sessions_survive_the_sweeper() {
    let mut orch = GameOrchestrator::new();
    let id = orch.initiate_game(4, 7, 0).unwrap().session_id;
    orch.record_vrf_request(id, 9, 1000).unwrap();
    orch.mark_generating_proof(id).unwrap();
    let game = build_game_state(4, 7, &word(&[0xAB, 0xCD]), 9, None).unwrap();
    orch.complete_game(id, game).unwrap();
    let removed = orch.cleanup_expired_games(10 * GAME_TTL_SECS);
    assert_eq!(removed, 0);
    assert_eq!(orch.get_game_status(id, 10 * GAME_TTL_SECS).unwrap().status, GameStatus::Ready);
}

#[test]
fn full_session_reaches_ready_with_the_expected_deal() {
    let mut orch = GameOrchestrator::new();
    // initiate(4, 7): 28 < 108
    let initiation = orch.initiate_game(4, 7, 0).unwrap();
    let id = initiation.session_id;
    assert_eq!(initiation.status, GameStatus::Requesting);
    // oracle acknowledges with request id 9 at block 1000
    orch.record_vrf_request(id, 9, 1000).unwrap();
    assert_eq!(orch.get_game_status(id, 0).unwrap().status, GameStatus::WaitingForVRF);
    assert_eq!(orch.get_game_status(id, 0).unwrap().vrf_request_id, Some(9));
    // fulfillment delivers the value 0xABCD
    let value = word(&[0xAB, 0xCD]);
    orch.mark_generating_proof(id).unwrap();
    let game = build_game_state(4, 7, &value, 9, Some(String::from("bafy-artifact"))).unwrap();
    orch.complete_game(id, game).unwrap();
    // the session is ready, with 4 hands of 7, a draw pile of 80, no discards;
    // the status query still surfaces the session's age and request id
    let ready = orch.get_game_status(id, 60).unwrap();
    assert_eq!(ready.status, GameStatus::Ready);
    assert_eq!(ready.elapsed_seconds, 60);
    assert_eq!(ready.vrf_request_id, Some(9));
    let state = orch.get_game_state(id).unwrap();
    assert_eq!(state.player_hands.len(), 4);
    for hand in &state.player_hands {
        assert_eq!(hand.len(), 7);
    }
    assert_eq!(state.draw_pile.len(), 80);
    assert!(state.discard_pile.is_empty());
    assert!(state.is_shuffled);
    assert_eq!(state.seed_metadata.value, value);
    assert_eq!(state.seed_metadata.request_id, 9);
    assert_eq!(state.proof_cid.as_deref(), Some("bafy-artifact"));
}

#[test]
fn unknown_session_is_not_found() {
    let orch = GameOrchestrator::new();
    assert_eq!(orch.get_game_status(12345, 0), Err(RegistryError::NotFound));
    assert_eq!(orch.get_game_state(12345).err(), Some(ResultError::NotFound));
}

#[test]
fn result_query_distinguishes_not_ready_from_not_found() {
    let mut orch = GameOrchestrator::new();
    let id = orch.initiate_game(4, 7, 0).unwrap().session_id;
    // known but still pending: not ready, not unknown
    assert_eq!(orch.get_game_state(id).err(), Some(ResultError::NotReady));
    orch.record_vrf_request(id, 9, 1000).unwrap();
    assert_eq!(orch.get_game_state(id).err(), Some(ResultError::NotReady));
    // a failed session is known and will never be ready
    orch.fail_game(id, FailureCause::Upload(String::from("gone"))).unwrap();
    assert_eq!(orch.get_game_state(id).err(), Some(ResultError::NotReady));
    // a purged session is unknown again
    let removed = orch.cleanup_expired_games(2 * GAME_TTL_SECS);
    assert_eq!(removed, 0); // failed sessions are terminal and stay
    assert_eq!(orch.get_game_state(77).err(), Some(ResultError::NotFound));
}

#[test]
fn drawing_from_a_completed_game_moves_the_top_card() {
    let mut game = build_game_state(4, 7, &word(&[0xAB, 0xCD]), 9, None).unwrap();
    let top = *game.draw_pile.last().unwrap();
    let card = draw_card(&mut game, 0).unwrap();
    assert_eq!(card, top);
    assert_eq!(game.player_hands[0].len(), 8);
    assert_eq!(game.draw_pile.len(), 79);
    assert_eq!(game.total_cards(), 108);
}
