use sha2::{Digest, Sha256};
use zunnogame::commitments::{build_merkle_root, compute_game_commitments, to_hex_with_prefix};
use zunnogame::rules::ValidationError;

#[test]
fn hex_encodes_with_prefix() {
    assert_eq!(to_hex_with_prefix(&[0xde, 0xad, 0xbe, 0xef]), "0xdeadbeef");
    assert_eq!(to_hex_with_prefix(&[]), "0x");
    assert_eq!(to_hex_with_prefix(&[0x00, 0x0f, 0xf0]), "0x000ff0");
}

#[test]
fn single_leaf_is_its_own_root() {
    let leaf = [7u8; 32];
    assert_eq!(build_merkle_root(&vec![leaf]), leaf);
}

#[test]
fn two_leaf_root_matches_the_tagged_digest() {
    let a = [1u8; 32];
    let b = [2u8; 32];
    let mut hasher = Sha256::new();
    hasher.update(b"ZUNNO_MERKLE_NODE_V1");
    hasher.update(a);
    hasher.update(b);
    let expected: [u8; 32] = hasher.finalize().into();
    assert_eq!(build_merkle_root(&vec![a, b]), expected);
    // the children are ordered before hashing, so swapping them changes nothing
    assert_eq!(build_merkle_root(&vec![b, a]), expected);
}

#[test]
fn odd_leaf_is_paired_with_itself() {
    let a = [1u8; 32];
    let b = [2u8; 32];
    let c = [3u8; 32];
    let node = |l: &[u8; 32], r: &[u8; 32]| -> [u8; 32] {
        let (lo, hi) = if l <= r { (l, r) } else { (r, l) };
        let mut hasher = Sha256::new();
        hasher.update(b"ZUNNO_MERKLE_NODE_V1");
        hasher.update(lo);
        hasher.update(hi);
        hasher.finalize().into()
    };
    let expected = node(&node(&a, &b), &node(&c, &c));
    assert_eq!(build_merkle_root(&vec![a, b, c]), expected);
}

#[test]
fn commitments_cover_every_player() {
    let seed = [5u8; 32];
    let values = compute_game_commitments(4, 7, &seed).unwrap();
    assert_eq!(values.no_of_players, 4);
    assert_eq!(values.cards_per_player, 7);
    assert_eq!(values.seed, seed);
    assert_eq!(values.initial_hands_hash.len(), 4);
    for hash in &values.initial_hands_hash {
        assert_eq!(hash.len(), 32);
    }
}

#[test]
fn commitments_reject_bad_params() {
    let seed = [5u8; 32];
    assert!(matches!(
        compute_game_commitments(0, 7, &seed),
        Err(ValidationError::InvalidPlayerCount)
    ));
}

#[test]
fn commitments_are_deterministic_and_seed_bound() {
    let a = compute_game_commitments(3, 5, &[1u8; 32]).unwrap();
    let b = compute_game_commitments(3, 5, &[1u8; 32]).unwrap();
    let c = compute_game_commitments(3, 5, &[2u8; 32]).unwrap();
    assert_eq!(a.merkle_root, b.merkle_root);
    assert_eq!(a.draw_pile_hash, b.draw_pile_hash);
    assert_ne!(a.merkle_root, c.merkle_root);
    assert_ne!(a.draw_pile_hash, c.draw_pile_hash);
}

#[test]
fn draw_pile_hash_matches_the_tagged_digest() {
    // deal everything by hand: 2 players, 3 cards each
    let seed = [9u8; 32];
    let values = compute_game_commitments(2, 3, &seed).unwrap();
    let outcome = zunnogame::rules::perform_shuffle(2, 3, &seed).unwrap();
    let mut hasher = Sha256::new();
    hasher.update(b"ZUNNO_DRAW_PILE_V1");
    hasher.update(seed);
    hasher.update(&outcome.draw_pile);
    let expected: [u8; 32] = hasher.finalize().into();
    assert_eq!(values.draw_pile_hash, expected);
}

#[test]
fn hand_hashes_match_the_salted_digest() {
    let seed = [3u8; 32];
    let values = compute_game_commitments(2, 3, &seed).unwrap();
    let outcome = zunnogame::rules::perform_shuffle(2, 3, &seed).unwrap();
    for (k, hand) in outcome.player_hands.iter().enumerate() {
        let mut salt_hasher = Sha256::new();
        salt_hasher.update(b"ZUNNO_PLAYER_SALT_V1");
        salt_hasher.update(seed);
        salt_hasher.update([k as u8]);
        let salt: [u8; 32] = salt_hasher.finalize().into();
        let mut hasher = Sha256::new();
        hasher.update(salt);
        hasher.update(hand);
        let expected: [u8; 32] = hasher.finalize().into();
        assert_eq!(values.initial_hands_hash[k], expected.to_vec());
    }
}
