//! Card names: the mapping from a card's deck index to the name the game's
//! client uses, and the conversions built on it.

use vstd::prelude::*;
use crate::rules::DECK_SIZE;
use crate::state::{GameError, GameState, PlayerId, cards_in_range, get_initial_hands_ref};

verus! {

/// The name of the card at a deck index.  Each color runs through one zero,
/// two of each digit, two skips, two reverses and two draw-twos; the last
/// eight cards are the wilds.
pub open spec fn spec_card_name(i: u8) -> Seq<char> {
    if i == 0 {
        "0R"@
    } else if i == 1 {
        "1R"@
    } else if i == 2 {
        "1R"@
    } else if i == 3 {
        "2R"@
    } else if i == 4 {
        "2R"@
    } else if i == 5 {
        "3R"@
    } else if i == 6 {
        "3R"@
    } else if i == 7 {
        "4R"@
    } else if i == 8 {
        "4R"@
    } else if i == 9 {
        "5R"@
    } else if i == 10 {
        "5R"@
    } else if i == 11 {
        "6R"@
    } else if i == 12 {
        "6R"@
    } else if i == 13 {
        "7R"@
    } else if i == 14 {
        "7R"@
    } else if i == 15 {
        "8R"@
    } else if i == 16 {
        "8R"@
    } else if i == 17 {
        "9R"@
    } else if i == 18 {
        "9R"@
    } else if i == 19 {
        "skipR"@
    } else if i == 20 {
        "skipR"@
    } else if i == 21 {
        "_R"@
    } else if i == 22 {
        "_R"@
    } else if i == 23 {
        "D2R"@
    } else if i == 24 {
        "D2R"@
    } else if i == 25 {
        "0G"@
    } else if i == 26 {
        "1G"@
    } else if i == 27 {
        "1G"@
    } else if i == 28 {
        "2G"@
    } else if i == 29 {
        "2G"@
    } else if i == 30 {
        "3G"@
    } else if i == 31 {
        "3G"@
    } else if i == 32 {
        "4G"@
    } else if i == 33 {
        "4G"@
    } else if i == 34 {
        "5G"@
    } else if i == 35 {
        "5G"@
    } else if i == 36 {
        "6G"@
    } else if i == 37 {
        "6G"@
    } else if i == 38 {
        "7G"@
    } else if i == 39 {
        "7G"@
    } else if i == 40 {
        "8G"@
    } else if i == 41 {
        "8G"@
    } else if i == 42 {
        "9G"@
    } else if i == 43 {
        "9G"@
    } else if i == 44 {
        "skipG"@
    } else if i == 45 {
        "skipG"@
    } else if i == 46 {
        "_G"@
    } else if i == 47 {
        "_G"@
    } else if i == 48 {
        "D2G"@
    } else if i == 49 {
        "D2G"@
    } else if i == 50 {
        "0B"@
    } else if i == 51 {
        "1B"@
    } else if i == 52 {
        "1B"@
    } else if i == 53 {
        "2B"@
    } else if i == 54 {
        "2B"@
    } else if i == 55 {
        "3B"@
    } else if i == 56 {
        "3B"@
    } else if i == 57 {
        "4B"@
    } else if i == 58 {
        "4B"@
    } else if i == 59 {
        "5B"@
    } else if i == 60 {
        "5B"@
    } else if i == 61 {
        "6B"@
    } else if i == 62 {
        "6B"@
    } else if i == 63 {
        "7B"@
    } else if i == 64 {
        "7B"@
    } else if i == 65 {
        "8B"@
    } else if i == 66 {
        "8B"@
    } else if i == 67 {
        "9B"@
    } else if i == 68 {
        "9B"@
    } else if i == 69 {
        "skipB"@
    } else if i == 70 {
        "skipB"@
    } else if i == 71 {
        "_B"@
    } else if i == 72 {
        "_B"@
    } else if i == 73 {
        "D2B"@
    } else if i == 74 {
        "D2B"@
    } else if i == 75 {
        "0Y"@
    } else if i == 76 {
        "1Y"@
    } else if i == 77 {
        "1Y"@
    } else if i == 78 {
        "2Y"@
    } else if i == 79 {
        "2Y"@
    } else if i == 80 {
        "3Y"@
    } else if i == 81 {
        "3Y"@
    } else if i == 82 {
        "4Y"@
    } else if i == 83 {
        "4Y"@
    } else if i == 84 {
        "5Y"@
    } else if i == 85 {
        "5Y"@
    } else if i == 86 {
        "6Y"@
    } else if i == 87 {
        "6Y"@
    } else if i == 88 {
        "7Y"@
    } else if i == 89 {
        "7Y"@
    } else if i == 90 {
        "8Y"@
    } else if i == 91 {
        "8Y"@
    } else if i == 92 {
        "9Y"@
    } else if i == 93 {
        "9Y"@
    } else if i == 94 {
        "skipY"@
    } else if i == 95 {
        "skipY"@
    } else if i == 96 {
        "_Y"@
    } else if i == 97 {
        "_Y"@
    } else if i == 98 {
        "D2Y"@
    } else if i == 99 {
        "D2Y"@
    } else if i == 100 {
        "W"@
    } else if i == 101 {
        "W"@
    } else if i == 102 {
        "W"@
    } else if i == 103 {
        "W"@
    } else if i == 104 {
        "D4W"@
    } else if i == 105 {
        "D4W"@
    } else if i == 106 {
        "D4W"@
    } else if i == 107 {
        "D4W"@
    } else {
        ""@
    }
}

/// Name of the card at a deck index.
pub fn index_to_card(index: u8) -> (r: &'static str)
    requires
        index < DECK_SIZE as u8,
    ensures
        r@ == spec_card_name(index),
{
    match index {
        0 => "0R",
        1 => "1R",
        2 => "1R",
        3 => "2R",
        4 => "2R",
        5 => "3R",
        6 => "3R",
        7 => "4R",
        8 => "4R",
        9 => "5R",
        10 => "5R",
        11 => "6R",
        12 => "6R",
        13 => "7R",
        14 => "7R",
        15 => "8R",
        16 => "8R",
        17 => "9R",
        18 => "9R",
        19 => "skipR",
        20 => "skipR",
        21 => "_R",
        22 => "_R",
        23 => "D2R",
        24 => "D2R",
        25 => "0G",
        26 => "1G",
        27 => "1G",
        28 => "2G",
        29 => "2G",
        30 => "3G",
        31 => "3G",
        32 => "4G",
        33 => "4G",
        34 => "5G",
        35 => "5G",
        36 => "6G",
        37 => "6G",
        38 => "7G",
        39 => "7G",
        40 => "8G",
        41 => "8G",
        42 => "9G",
        43 => "9G",
        44 => "skipG",
        45 => "skipG",
        46 => "_G",
        47 => "_G",
        48 => "D2G",
        49 => "D2G",
        50 => "0B",
        51 => "1B",
        52 => "1B",
        53 => "2B",
        54 => "2B",
        55 => "3B",
        56 => "3B",
        57 => "4B",
        58 => "4B",
        59 => "5B",
        60 => "5B",
        61 => "6B",
        62 => "6B",
        63 => "7B",
        64 => "7B",
        65 => "8B",
        66 => "8B",
        67 => "9B",
        68 => "9B",
        69 => "skipB",
        70 => "skipB",
        71 => "_B",
        72 => "_B",
        73 => "D2B",
        74 => "D2B",
        75 => "0Y",
        76 => "1Y",
        77 => "1Y",
        78 => "2Y",
        79 => "2Y",
        80 => "3Y",
        81 => "3Y",
        82 => "4Y",
        83 => "4Y",
        84 => "5Y",
        85 => "5Y",
        86 => "6Y",
        87 => "6Y",
        88 => "7Y",
        89 => "7Y",
        90 => "8Y",
        91 => "8Y",
        92 => "9Y",
        93 => "9Y",
        94 => "skipY",
        95 => "skipY",
        96 => "_Y",
        97 => "_Y",
        98 => "D2Y",
        99 => "D2Y",
        100 => "W",
        101 => "W",
        102 => "W",
        103 => "W",
        104 => "D4W",
        105 => "D4W",
        106 => "D4W",
        107 => "D4W",
        _ => "",
    }
}

/// Name of one card, owned.
pub fn convert_card_to_js(card_index: u8) -> (r: String)
    requires
        card_index < DECK_SIZE as u8,
    ensures
        r@ == spec_card_name(card_index),
{
    index_to_card(card_index).to_owned()
}

/// Names of a run of cards, in order.
pub fn convert_indexes_to_js_cards(card_indexes: &[u8]) -> (r: Vec<String>)
    requires
        cards_in_range(card_indexes@),
    ensures
        r@.len() == card_indexes@.len(),
        forall|i: int|
            0 <= i < r@.len() ==> (#[trigger] r@[i])@ == spec_card_name(card_indexes@[i]),
{
    let n = card_indexes.len();
    let mut out: Vec<String> = Vec::new();
    let mut i: usize = 0;
    while i < n
        invariant
            i <= n,
            n == card_indexes@.len(),
            cards_in_range(card_indexes@),
            out@.len() == i as int,
            forall|k: int|
                0 <= k < i as int ==> (#[trigger] out@[k])@ == spec_card_name(card_indexes@[k]),
        decreases n - i,
    {
        out.push(convert_card_to_js(card_indexes[i]));
        i += 1;
    }
    out
}

/// Names of every hand of a deal, in order.
pub fn convert_distributed_cards_to_js(distributed_cards: &[Vec<u8>]) -> (r: Vec<Vec<String>>)
    requires
        forall|k: int|
            0 <= k < distributed_cards@.len() ==> cards_in_range(
                (#[trigger] distributed_cards@[k])@,
            ),
    ensures
        r@.len() == distributed_cards@.len(),
        forall|k: int|
            0 <= k < r@.len() ==> (#[trigger] r@[k])@.len() == distributed_cards@[k]@.len(),
        forall|k: int, i: int|
            0 <= k < r@.len() && 0 <= i < r@[k]@.len() ==> (#[trigger] r@[k]@[i])@
                == spec_card_name(distributed_cards@[k]@[i]),
{
    let n = distributed_cards.len();
    let mut out: Vec<Vec<String>> = Vec::new();
    let mut k: usize = 0;
    while k < n
        invariant
            k <= n,
            n == distributed_cards@.len(),
            forall|kk: int|
                0 <= kk < distributed_cards@.len() ==> cards_in_range(
                    (#[trigger] distributed_cards@[kk])@,
                ),
            out@.len() == k as int,
            forall|kk: int|
                0 <= kk < k as int ==> (#[trigger] out@[kk])@.len()
                    == distributed_cards@[kk]@.len(),
            forall|kk: int, i: int|
                0 <= kk < k as int && 0 <= i < out@[kk]@.len() ==> (#[trigger] out@[kk]@[i])@
                    == spec_card_name(distributed_cards@[kk]@[i]),
        decreases n - k,
    {
        let hand = convert_indexes_to_js_cards(distributed_cards[k].as_slice());
        out.push(hand);
        k += 1;
    }
    out
}

/// A game state in the names the client uses.
#[derive(Debug, Clone)]
pub struct GameStateJS {
    pub player_hands: Vec<Vec<String>>,
    pub draw_pile: Vec<String>,
    pub discard_pile: Vec<String>,
    pub is_shuffled: bool,
    pub seed_used: [u8; 32],
}

impl GameStateJS {
    /// Convert a whole game state.
    pub fn from_state(game_state: &GameState) -> (r: GameStateJS)
        requires
            game_state.wf(),
        ensures
            r.player_hands@.len() == game_state.player_hands@.len(),
            forall|k: int, i: int|
                0 <= k < r.player_hands@.len() && 0 <= i < r.player_hands@[k]@.len() ==> (
                #[trigger] r.player_hands@[k]@[i])@ == spec_card_name(
                    game_state.player_hands@[k]@[i],
                ),
            r.draw_pile@.len() == game_state.draw_pile@.len(),
            forall|i: int|
                0 <= i < r.draw_pile@.len() ==> (#[trigger] r.draw_pile@[i])@ == spec_card_name(
                    game_state.draw_pile@[i],
                ),
            r.discard_pile@.len() == game_state.discard_pile@.len(),
            forall|i: int|
                0 <= i < r.discard_pile@.len() ==> (#[trigger] r.discard_pile@[i])@
                    == spec_card_name(game_state.discard_pile@[i]),
            r.is_shuffled == game_state.is_shuffled,
            r.seed_used == game_state.seed_metadata.value,
    {
        GameStateJS {
            player_hands: convert_distributed_cards_to_js(game_state.player_hands.as_slice()),
            draw_pile: convert_indexes_to_js_cards(game_state.draw_pile.as_slice()),
            discard_pile: convert_indexes_to_js_cards(game_state.discard_pile.as_slice()),
            is_shuffled: game_state.is_shuffled,
            seed_used: game_state.seed_metadata.value,
        }
    }
}

/// A player's hand in the names the client uses.
pub fn serialize_player_hand_js(game_state: &GameState, player_id: PlayerId) -> (r: Result<
    Vec<String>,
    GameError,
>)
    requires
        game_state.wf(),
    ensures
        r is Ok <==> (game_state.is_shuffled && game_state.player_hands@.len() > 0
            && (player_id as int) < game_state.player_hands@.len()),
        r matches Ok(names) ==> ({
            let hand = game_state.player_hands@[player_id as int]@;
            &&& names@.len() == hand.len()
            &&& forall|i: int|
                0 <= i < names@.len() ==> (#[trigger] names@[i])@ == spec_card_name(hand[i])
        }),
{
    match get_initial_hands_ref(game_state, player_id) {
        Ok(hand) => Ok(convert_indexes_to_js_cards(hand.as_slice())),
        Err(e) => Err(e),
    }
}

} // verus!
