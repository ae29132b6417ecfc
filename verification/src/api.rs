//! The request and response shapes of the service's interface.  The
//! transport sits outside; these are the plain values it carries.

use vstd::prelude::*;
use crate::cards::GameStateJS;
use crate::state::PlayerId;

verus! {

/// Body of a start-game request.
#[derive(Debug, Clone, Copy, PartialEq, Eq, Structural)]
pub struct StartGameRequest {
    pub num_players: u8,
    pub cards_per_player: u8,
}

/// A completed game, with its session id.
#[derive(Debug, Clone)]
pub struct GameStateApiResponse {
    pub session_id: u64,
    pub game_state: GameStateJS,
}

/// The artifact reference of a session's proof.
#[derive(Debug, Clone, PartialEq)]
pub struct ProofResponse {
    pub session_id: u64,
    pub proof_cid: String,
}

/// Body of a shuffle-and-deal request.
#[derive(Debug, Clone, Copy, PartialEq, Eq, Structural)]
pub struct ShuffleAndDealRequest {
    pub players: u8,
    pub cards_per_player: u8,
}

/// Answer to a shuffle-and-deal request.
#[derive(Debug, Clone, PartialEq)]
pub struct ShuffleAndDealResponse {
    pub success: bool,
    pub message: String,
    pub total_players: u8,
    pub cards_per_player: u8,
    pub cards_remaining_in_deck: usize,
    pub seed_used: u64,
}

/// A player's dealt hand, in both raw and named form.
#[derive(Debug, Clone, PartialEq)]
pub struct InitialHandsResponse {
    pub player_id: PlayerId,
    pub cards: Vec<u8>,
    pub cards_js: Vec<String>,
    pub card_count: usize,
}

/// A player's dealt hand, named form only.
#[derive(Debug, Clone, PartialEq)]
pub struct InitialHandsJSResponse {
    pub player_id: PlayerId,
    pub cards: Vec<String>,
    pub card_count: usize,
}

/// Body of a draw-card request.
#[derive(Debug, Clone, Copy, PartialEq, Eq, Structural)]
pub struct DrawCardRequest {
    pub player_id: PlayerId,
}

/// Body of a draw-several-cards request.
#[derive(Debug, Clone, Copy, PartialEq, Eq, Structural)]
pub struct DrawMultipleRequest {
    pub player_id: PlayerId,
    pub count: u8,
}

/// Answer to a draw-card request.
#[derive(Debug, Clone, PartialEq)]
pub struct DrawCardResponse {
    pub success: bool,
    pub card: Option<u8>,
    pub card_js: Option<String>,
    pub message: String,
    pub player_id: PlayerId,
    pub new_hand_size: usize,
}

/// Answer to a draw-several-cards request.
#[derive(Debug, Clone, PartialEq)]
pub struct DrawMultipleResponse {
    pub success: bool,
    pub cards: Vec<u8>,
    pub cards_js: Vec<String>,
    pub message: String,
    pub player_id: PlayerId,
    pub new_hand_size: usize,
}

/// Body of a play-card request.
#[derive(Debug, Clone, Copy, PartialEq, Eq, Structural)]
pub struct PlayCardRequest {
    pub player_id: PlayerId,
    pub card_index: usize,
}

/// Answer to a play-card request.
#[derive(Debug, Clone, PartialEq)]
pub struct PlayCardResponse {
    pub success: bool,
    pub played_card: u8,
    pub played_card_js: String,
    pub message: String,
    pub player_id: PlayerId,
    pub new_hand_size: usize,
}

/// A whole game, with its sizes.
#[derive(Debug, Clone)]
pub struct GameStateResponse {
    pub game_state: GameStateJS,
    pub player_count: usize,
    pub total_cards: usize,
}

/// The sizes and flags of a game.
#[derive(Debug, Clone, Copy, PartialEq, Eq, Structural)]
pub struct GameStatusResponse {
    pub is_initialized: bool,
    pub is_shuffled: bool,
    pub player_count: usize,
    pub draw_pile_count: usize,
    pub discard_pile_count: usize,
    pub total_cards: usize,
}

/// An error surfaced to a client.
#[derive(Debug, Clone, PartialEq)]
pub struct ErrorResponse {
    pub error: String,
    pub code: String,
}

/// Options of a game-state query.
#[derive(Debug, Clone, PartialEq)]
pub struct GameStateQuery {
    pub include_all_hands: Option<bool>,
    pub format: Option<String>,
}

} // verus!
