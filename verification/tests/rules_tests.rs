use zunnogame::rules::{
    DECK_SIZE, MAX_CARDS_PER_PLAYER, MAX_PLAYERS, ValidationError, distribute_cards,
    perform_shuffle, shuffle_deck, validate_game_params,
};

#[test]
fn validate_accepts_in_range_params() {
    assert!(validate_game_params(1, 1).is_ok());
    assert!(validate_game_params(4, 7).is_ok());
    assert!(validate_game_params(10, 10).is_ok());
    assert!(validate_game_params(MAX_PLAYERS, 10).is_ok());
}

#[test]
fn validate_rejects_player_count() {
    assert_eq!(validate_game_params(0, 5), Err(ValidationError::InvalidPlayerCount));
    assert_eq!(validate_game_params(11, 5), Err(ValidationError::InvalidPlayerCount));
}

#[test]
fn validate_rejects_cards_per_player() {
    assert_eq!(validate_game_params(5, 0), Err(ValidationError::InvalidCardsPerPlayer));
    assert_eq!(
        validate_game_params(5, MAX_CARDS_PER_PLAYER + 1),
        Err(ValidationError::InvalidCardsPerPlayer)
    );
}

#[test]
fn validate_rejects_oversized_deal() {
    // 9 * 12 == 108: equal to the deck is already too much
    assert_eq!(validate_game_params(9, 12), Err(ValidationError::NotEnoughCards));
    assert_eq!(validate_game_params(10, 20), Err(ValidationError::NotEnoughCards));
}

#[test]
fn distribute_deals_round_robin() {
    let deck: Vec<u8> = (0..6).collect();
    let hands = distribute_cards(&deck, 2, 3);
    assert_eq!(hands, vec![vec![0, 2, 4], vec![1, 3, 5]]);
}

#[test]
fn distribute_leaves_remainder_untouched() {
    let deck: Vec<u8> = (0..10).collect();
    let hands = distribute_cards(&deck, 3, 2);
    assert_eq!(hands, vec![vec![0, 3], vec![1, 4], vec![2, 5]]);
}

#[test]
fn perform_shuffle_deals_requested_sizes() {
    let seed = [7u8; 32];
    let outcome = perform_shuffle(4, 7, &seed).unwrap();
    assert_eq!(outcome.player_hands.len(), 4);
    for hand in &outcome.player_hands {
        assert_eq!(hand.len(), 7);
    }
    assert_eq!(outcome.draw_pile.len(), DECK_SIZE - 28);
    assert_eq!(outcome.draw_pile_count, (DECK_SIZE - 28) as u64);
}

#[test]
fn perform_shuffle_rejects_bad_params() {
    let seed = [0u8; 32];
    assert!(matches!(perform_shuffle(0, 7, &seed), Err(ValidationError::InvalidPlayerCount)));
    assert!(matches!(perform_shuffle(9, 12, &seed), Err(ValidationError::NotEnoughCards)));
}

#[test]
fn perform_shuffle_is_a_permutation_of_the_deck() {
    let seed = [42u8; 32];
    let outcome = perform_shuffle(3, 5, &seed).unwrap();
    let mut all: Vec<u8> = Vec::new();
    for hand in &outcome.player_hands {
        all.extend_from_slice(hand);
    }
    all.extend_from_slice(&outcome.draw_pile);
    all.sort_unstable();
    let expected: Vec<u8> = (0..DECK_SIZE as u8).collect();
    assert_eq!(all, expected);
}

#[test]
fn shuffle_is_deterministic_in_the_seed() {
    let seed = [9u8; 32];
    let a = perform_shuffle(2, 4, &seed).unwrap();
    let b = perform_shuffle(2, 4, &seed).unwrap();
    assert_eq!(a.player_hands, b.player_hands);
    assert_eq!(a.draw_pile, b.draw_pile);
}

#[test]
fn shuffle_actually_reorders_the_deck() {
    let mut deck: Vec<u8> = (0..DECK_SIZE as u8).collect();
    let original = deck.clone();
    shuffle_deck(&mut deck, &[1u8; 32]);
    assert_eq!(deck.len(), original.len());
    assert_ne!(deck, original);
    let mut sorted = deck.clone();
    sorted.sort_unstable();
    assert_eq!(sorted, original);
}

#[test]
fn different_seeds_give_different_deals() {
    let a = perform_shuffle(2, 4, &[1u8; 32]).unwrap();
    let b = perform_shuffle(2, 4, &[2u8; 32]).unwrap();
    assert_ne!(a.draw_pile, b.draw_pile);
}
