use zunnogame::cards::{
    GameStateJS, convert_card_to_js, convert_distributed_cards_to_js, convert_indexes_to_js_cards,
    index_to_card, serialize_player_hand_js,
};
use zunnogame::orchestrator::build_game_state;
use zunnogame::state::{
    GameError, GameState, draw_card, draw_multiple_cards, get_initial_hands, get_initial_hands_ref,
    play_card,
};
use zunnogame::storage::current_timestamp;
use zunnogame::rules::shuffle_deck;
use zunnogame::vrf::{BlockchainSeed, increment_word};

fn dealt_game() -> GameState {
    build_game_state(4, 7, &[6u8; 32], 9, None).unwrap()
}

#[test]
fn card_names_match_the_client_table() {
    assert_eq!(index_to_card(0), "0R");
    assert_eq!(index_to_card(1), "1R");
    assert_eq!(index_to_card(9), "5R");
    assert_eq!(index_to_card(19), "skipR");
    assert_eq!(index_to_card(21), "_R");
    assert_eq!(index_to_card(23), "D2R");
    assert_eq!(index_to_card(25), "0G");
    assert_eq!(index_to_card(50), "0B");
    assert_eq!(index_to_card(75), "0Y");
    assert_eq!(index_to_card(99), "D2Y");
    assert_eq!(index_to_card(100), "W");
    assert_eq!(index_to_card(103), "W");
    assert_eq!(index_to_card(104), "D4W");
    assert_eq!(index_to_card(107), "D4W");
}

#[test]
fn conversions_name_every_card() {
    assert_eq!(convert_card_to_js(44), "skipG");
    assert_eq!(
        convert_indexes_to_js_cards(&[0, 25, 100]),
        vec!["0R".to_string(), "0G".to_string(), "W".to_string()]
    );
    assert_eq!(
        convert_distributed_cards_to_js(&[vec![0, 1], vec![107]]),
        vec![vec!["0R".to_string(), "1R".to_string()], vec!["D4W".to_string()]]
    );
}

#[test]
fn fresh_game_state_is_uninitialized() {
    let state = GameState::new();
    assert_eq!(state.player_count(), 0);
    assert!(!state.is_initialized());
    assert!(!state.is_valid_player(0));
    assert_eq!(state.total_cards(), 0);
}

#[test]
fn dealt_game_counts_a_full_deck() {
    let state = dealt_game();
    assert!(state.is_initialized());
    assert_eq!(state.player_count(), 4);
    assert!(state.is_valid_player(3));
    assert!(!state.is_valid_player(4));
    assert_eq!(state.total_cards(), 108);
}

#[test]
fn draw_card_refuses_bad_inputs() {
    let mut empty = GameState::new();
    assert_eq!(draw_card(&mut empty, 0), Err(GameError::NotInitialized));
    let mut state = dealt_game();
    assert_eq!(draw_card(&mut state, 9), Err(GameError::InvalidPlayer));
}

#[test]
fn draw_card_without_any_cards_fails() {
    let mut state = GameState {
        player_hands: vec![vec![1, 2]],
        draw_pile: Vec::new(),
        discard_pile: vec![3],
        is_shuffled: true,
        seed_metadata: BlockchainSeed::default(),
        proof_cid: None,
    };
    assert_eq!(draw_card(&mut state, 0), Err(GameError::NoCardsAvailable));
}

#[test]
fn empty_draw_pile_is_replenished_from_the_discards() {
    let mut state = GameState {
        player_hands: vec![vec![1, 2]],
        draw_pile: Vec::new(),
        discard_pile: vec![10, 20, 30],
        is_shuffled: true,
        seed_metadata: BlockchainSeed { value: [4u8; 32], request_id: 1 },
        proof_cid: None,
    };
    let card = draw_card(&mut state, 0).unwrap();
    // the drawn card is one of the two buried discards; the top one stays
    assert!(card == 10 || card == 20);
    assert_eq!(state.discard_pile, vec![30]);
    assert_eq!(state.draw_pile.len(), 1);
    assert_eq!(state.player_hands[0].len(), 3);
    assert_eq!(state.total_cards(), 5);
    // the replenished pile is the buried discards reshuffled under the
    // successor seed, with the drawn card taken off its top
    let mut expected = vec![10, 20];
    shuffle_deck(&mut expected, &increment_word(&[4u8; 32]));
    assert_eq!(card, *expected.last().unwrap());
    expected.pop();
    assert_eq!(state.draw_pile, expected);
}

#[test]
fn draw_multiple_appends_to_the_hand() {
    let mut state = dealt_game();
    let drawn = draw_multiple_cards(&mut state, 2, 3).unwrap();
    assert_eq!(drawn.len(), 3);
    assert_eq!(state.player_hands[2].len(), 10);
    assert_eq!(state.draw_pile.len(), 77);
    assert_eq!(state.total_cards(), 108);
    let none = draw_multiple_cards(&mut state, 2, 0).unwrap();
    assert!(none.is_empty());
    assert_eq!(state.player_hands[2].len(), 10);
}

#[test]
fn play_card_moves_it_to_the_discards() {
    let mut state = dealt_game();
    let expected = state.player_hands[1][2];
    let played = play_card(&mut state, 1, 2).unwrap();
    assert_eq!(played, expected);
    assert_eq!(state.player_hands[1].len(), 6);
    assert_eq!(state.discard_pile, vec![expected]);
    assert_eq!(state.total_cards(), 108);
}

#[test]
fn play_card_refuses_bad_inputs() {
    let mut empty = GameState::new();
    assert_eq!(play_card(&mut empty, 0, 0), Err(GameError::NotInitialized));
    let mut state = dealt_game();
    assert_eq!(play_card(&mut state, 9, 0), Err(GameError::InvalidPlayer));
    assert_eq!(play_card(&mut state, 0, 7), Err(GameError::CardIndexOutOfBounds));
}

#[test]
fn hands_can_be_read_by_reference_or_copy() {
    let state = dealt_game();
    let by_ref = get_initial_hands_ref(&state, 1).unwrap().clone();
    let owned = get_initial_hands(&state, 1).unwrap();
    assert_eq!(by_ref, owned);
    assert_eq!(owned.len(), 7);
    assert!(get_initial_hands(&state, 4).is_err());
    assert!(get_initial_hands_ref(&GameState::new(), 0).is_err());
}

#[test]
fn whole_state_converts_to_client_names() {
    let state = dealt_game();
    let js = GameStateJS::from_state(&state);
    assert_eq!(js.player_hands.len(), 4);
    assert_eq!(js.draw_pile.len(), 80);
    assert!(js.discard_pile.is_empty());
    assert!(js.is_shuffled);
    assert_eq!(js.seed_used, [6u8; 32]);
    assert_eq!(js.player_hands[0][0], index_to_card(state.player_hands[0][0]));
}

#[test]
fn player_hand_serializes_to_names() {
    let state = dealt_game();
    let names = serialize_player_hand_js(&state, 0).unwrap();
    assert_eq!(names.len(), 7);
    for (i, name) in names.iter().enumerate() {
        assert_eq!(name, index_to_card(state.player_hands[0][i]));
    }
    assert!(serialize_player_hand_js(&state, 4).is_err());
}

#[test]
fn clock_reads_a_real_time() {
    // seconds since the epoch: far past the moment this library was written
    assert!(current_timestamp() > 1_600_000_000);
}
