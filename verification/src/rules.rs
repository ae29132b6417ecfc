//! Game parameters, their validation, and the deterministic deal.

use vstd::prelude::*;
use rand::seq::SliceRandom;
use rand::SeedableRng;

verus! {

/// Number of cards in a full deck.
pub const DECK_SIZE: usize = 108;

/// Largest player count a game may be created with.
pub const MAX_PLAYERS: u8 = 10;

/// Largest hand size a game may be created with.
pub const MAX_CARDS_PER_PLAYER: u8 = 20;

/// Why a pair of game parameters was rejected.
#[derive(Debug, Clone, Copy, PartialEq, Eq, Structural)]
pub enum ValidationError {
    InvalidPlayerCount,
    InvalidCardsPerPlayer,
    NotEnoughCards,
}

/// Parameters are acceptable: both counts within their fixed bounds and the
/// requested hands strictly smaller than the deck.
pub open spec fn params_valid(num_players: u8, cards_per_player: u8) -> bool {
    &&& 1 <= num_players <= MAX_PLAYERS
    &&& 1 <= cards_per_player <= MAX_CARDS_PER_PLAYER
    &&& (num_players as int) * (cards_per_player as int) < DECK_SIZE as int
}

/// The exact outcome of validation, checks in order: player count first,
/// then cards per player, then the deck budget.
pub open spec fn spec_validate(num_players: u8, cards_per_player: u8) -> Result<
    (),
    ValidationError,
> {
    if num_players == 0 || num_players > MAX_PLAYERS {
        Err(ValidationError::InvalidPlayerCount)
    } else if cards_per_player == 0 || cards_per_player > MAX_CARDS_PER_PLAYER {
        Err(ValidationError::InvalidCardsPerPlayer)
    } else if (num_players as int) * (cards_per_player as int) >= DECK_SIZE as int {
        Err(ValidationError::NotEnoughCards)
    } else {
        Ok(())
    }
}

/// Validate game parameters.
pub fn validate_game_params(num_players: u8, cards_per_player: u8) -> (r: Result<
    (),
    ValidationError,
>)
    ensures
        r == spec_validate(num_players, cards_per_player),
        r is Ok <==> params_valid(num_players, cards_per_player),
{
    proof {
        assert((num_players as int) * (cards_per_player as int) <= 255 * 255) by (nonlinear_arith)
            requires
                num_players <= 255,
                cards_per_player <= 255,
        ;
    }
    if num_players == 0 || num_players > MAX_PLAYERS {
        Err(ValidationError::InvalidPlayerCount)
    } else if cards_per_player == 0 || cards_per_player > MAX_CARDS_PER_PLAYER {
        Err(ValidationError::InvalidCardsPerPlayer)
    } else if (num_players as usize) * (cards_per_player as usize) >= DECK_SIZE {
        Err(ValidationError::NotEnoughCards)
    } else {
        Ok(())
    }
}

/// The deck in its unshuffled order: card `i` at position `i`.
pub open spec fn base_deck() -> Seq<u8> {
    Seq::new(DECK_SIZE as nat, |i: int| i as u8)
}

/// What the seeded shuffle leaves of a deck.  The stream cipher behind the
/// shuffle is a function of the seed alone, so the permuted deck is a function
/// of the deck and the seed.
pub uninterp spec fn shuffled_of(deck: Seq<u8>, seed: Seq<u8>) -> Seq<u8>;

/// Shuffle a deck in place with a seeded generator.
///
/// Relies on `rand::seq::SliceRandom::shuffle` driven by
/// `rand_chacha::ChaCha20Rng::from_seed`: a Fisher-Yates shuffle that permutes
/// the slice by in-place swaps, drawing from a reproducible stream that
/// depends on the seed alone.
#[verifier::external_body]
pub fn shuffle_deck(deck: &mut Vec<u8>, seed: &[u8; 32])
    ensures
        final(deck)@ == shuffled_of(old(deck)@, seed@),
        final(deck)@.len() == old(deck)@.len(),
        final(deck)@.to_multiset() == old(deck)@.to_multiset(),
{
    let mut rng = rand_chacha::ChaCha20Rng::from_seed(*seed);
    deck.as_mut_slice().shuffle(&mut rng);
}

/// A freshly dealt game: one hand per player and the undealt remainder.
#[derive(Debug)]
pub struct ShuffleOutcome {
    pub player_hands: Vec<Vec<u8>>,
    pub draw_pile: Vec<u8>,
    pub draw_pile_count: u64,
}

/// Deal the first `num_players * cards_per_player` cards of `deck` round-robin:
/// the card at deck position `i` goes to player `i % num_players`.
pub fn distribute_cards(deck: &[u8], num_players: u8, cards_per_player: u8) -> (r: Vec<Vec<u8>>)
    requires
        deck@.len() >= (num_players as int) * (cards_per_player as int),
    ensures
        r@.len() == num_players as int,
        forall|k: int|
            0 <= k < num_players as int ==> #[trigger] r@[k]@.len() == cards_per_player as int,
        forall|k: int, j: int|
            0 <= k < num_players as int && 0 <= j < cards_per_player as int ==> #[trigger] r@[k]@[j]
                == deck@[j * (num_players as int) + k],
{
    let p = num_players as usize;
    let c = cards_per_player as usize;
    let mut hands: Vec<Vec<u8>> = Vec::new();
    let mut k: usize = 0;
    while k < p
        invariant
            k <= p,
            p == num_players as int,
            c == cards_per_player as int,
            deck@.len() >= p * c,
            hands@.len() == k as int,
            forall|kk: int| 0 <= kk < k as int ==> #[trigger] hands@[kk]@.len() == c as int,
            forall|kk: int, j: int|
                0 <= kk < k as int && 0 <= j < c as int ==> #[trigger] hands@[kk]@[j] == deck@[j * (
                p as int) + kk],
        decreases p - k,
    {
        let mut hand: Vec<u8> = Vec::new();
        let mut j: usize = 0;
        let mut idx: usize = k;
        while j < c
            invariant
                j <= c,
                k < p,
                p <= 255,
                c <= 255,
                p == num_players as int,
                c == cards_per_player as int,
                deck@.len() >= p * c,
                idx == j * (p as int) + k,
                hand@.len() == j as int,
                forall|jj: int|
                    0 <= jj < j as int ==> #[trigger] hand@[jj] == deck@[jj * (p as int) + k],
            decreases c - j,
        {
            proof {
                assert((j + 1) * (p as int) == j * (p as int) + p) by (nonlinear_arith);
                assert(j * (p as int) + k < p * c && (j + 1) * (p as int) + k <= 256 * 255) by (nonlinear_arith)
                    requires
                        0 <= j < c,
                        0 <= k < p,
                        p <= 255,
                        c <= 255,
                ;
            }
            hand.push(deck[idx]);
            idx += p;
            j += 1;
        }
        hands.push(hand);
        k += 1;
    }
    hands
}

/// Validate the parameters, shuffle a fresh deck with the seed, and deal.
///
/// On success the hands hold the first `num_players * cards_per_player` cards
/// of the shuffled deck dealt round-robin, and the draw pile holds the rest in
/// shuffled order.
pub fn perform_shuffle(num_players: u8, cards_per_player: u8, seed: &[u8; 32]) -> (r: Result<
    ShuffleOutcome,
    ValidationError,
>)
    ensures
        r is Ok <==> params_valid(num_players, cards_per_player),
        r is Err ==> Err::<(), ValidationError>(r->Err_0) == spec_validate(
            num_players,
            cards_per_player,
        ),
        r is Ok ==> ({
            let o = r->Ok_0;
            let shuffled = shuffled_of(base_deck(), seed@);
            let p = num_players as int;
            let c = cards_per_player as int;
            &&& shuffled.len() == DECK_SIZE as int
            &&& shuffled.to_multiset() == base_deck().to_multiset()
            &&& o.player_hands@.len() == p
            &&& forall|k: int| 0 <= k < p ==> #[trigger] o.player_hands@[k]@.len() == c
            &&& forall|k: int, j: int|
                0 <= k < p && 0 <= j < c ==> #[trigger] o.player_hands@[k]@[j] == shuffled[j * p
                    + k]
            &&& o.draw_pile@ == shuffled.subrange(p * c, DECK_SIZE as int)
            &&& o.draw_pile_count == DECK_SIZE as int - p * c
        }),
{
    match validate_game_params(num_players, cards_per_player) {
        Ok(()) => {},
        Err(e) => {
            return Err(e);
        },
    }
    let mut deck: Vec<u8> = Vec::new();
    let mut i: usize = 0;
    while i < DECK_SIZE
        invariant
            i <= DECK_SIZE,
            deck@.len() == i as int,
            forall|k: int| 0 <= k < i as int ==> #[trigger] deck@[k] == k as u8,
        decreases DECK_SIZE - i,
    {
        deck.push(i as u8);
        i += 1;
    }
    proof {
        assert(deck@ =~= base_deck());
    }
    shuffle_deck(&mut deck, seed);
    let dealt = (num_players as usize) * (cards_per_player as usize);
    let player_hands = distribute_cards(deck.as_slice(), num_players, cards_per_player);
    let mut draw_pile: Vec<u8> = Vec::new();
    let mut d: usize = dealt;
    while d < DECK_SIZE
        invariant
            dealt <= d <= DECK_SIZE,
            deck@.len() == DECK_SIZE as int,
            draw_pile@.len() == d - dealt,
            forall|k: int|
                0 <= k < draw_pile@.len() ==> #[trigger] draw_pile@[k] == deck@[dealt as int + k],
        decreases DECK_SIZE - d,
    {
        draw_pile.push(deck[d]);
        d += 1;
    }
    proof {
        assert(draw_pile@ =~= deck@.subrange(dealt as int, DECK_SIZE as int));
    }
    let draw_pile_count = draw_pile.len() as u64;
    Ok(ShuffleOutcome { player_hands, draw_pile, draw_pile_count })
}

} // verus!
