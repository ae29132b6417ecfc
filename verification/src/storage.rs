//! Session records, their lifecycle status, and the status order.

use vstd::prelude::*;

verus! {

/// Structured cause recorded when a session fails.  The detail string is kept
/// for observability and never branched upon.
#[derive(Debug, Clone, PartialEq)]
pub enum FailureCause {
    /// Submitting the randomness request failed.
    OracleUnavailable(String),
    /// The proof computation failed.
    ProofComputation(String),
    /// Storing the artifact failed.
    Upload(String),
}

impl FailureCause {
    /// An exact copy, usable from verified callers.
    pub fn duplicate(&self) -> (r: FailureCause)
        ensures
            r == *self,
    {
        match self {
            FailureCause::OracleUnavailable(m) => FailureCause::OracleUnavailable(m.clone()),
            FailureCause::ProofComputation(m) => FailureCause::ProofComputation(m.clone()),
            FailureCause::Upload(m) => FailureCause::Upload(m.clone()),
        }
    }
}

/// Status of a game session.  A session only ever moves forward:
/// `Requesting`, then `WaitingForVRF`, then `GeneratingProof`, then `Ready`,
/// with `Failed` reachable from any non-terminal status.  `Ready` and
/// `Failed` are terminal.
#[derive(Debug, Clone, PartialEq)]
pub enum GameStatus {
    /// Initial request received, randomness being requested.
    Requesting,
    /// Randomness request sent, waiting for fulfillment.
    WaitingForVRF,
    /// Randomness fulfilled, proof being generated.
    GeneratingProof,
    /// Game ready to play.
    Ready,
    /// The session failed for the recorded cause.
    Failed(FailureCause),
}

/// Position of a status along the lifecycle.
pub open spec fn status_rank(s: GameStatus) -> int {
    match s {
        GameStatus::Requesting => 0,
        GameStatus::WaitingForVRF => 1,
        GameStatus::GeneratingProof => 2,
        GameStatus::Ready => 3,
        GameStatus::Failed(_) => 4,
    }
}

/// A terminal status never changes again.
pub open spec fn is_terminal(s: GameStatus) -> bool {
    s is Ready || s is Failed
}

/// A status update is legal when it leaves a non-terminal status and moves
/// strictly forward along the lifecycle.
pub open spec fn can_advance(from: GameStatus, to: GameStatus) -> bool {
    !is_terminal(from) && status_rank(from) < status_rank(to)
}

/// Law: statuses never regress.  Every legal update strictly increases the
/// status's position along `Requesting, WaitingForVRF, GeneratingProof,
/// Ready / Failed`, and none leaves a terminal status, so the sequence of
/// statuses observed on one session is strictly increasing in rank and stops
/// at the first terminal status.
pub proof fn lemma_status_monotonic(from: GameStatus, to: GameStatus)
    requires
        can_advance(from, to),
    ensures
        status_rank(from) < status_rank(to),
        !is_terminal(from),
        is_terminal(to) ==> forall|next: GameStatus| !can_advance(to, next),
{
}

impl GameStatus {
    /// An exact copy, usable from verified callers.
    pub fn duplicate(&self) -> (r: GameStatus)
        ensures
            r == *self,
    {
        match self {
            GameStatus::Requesting => GameStatus::Requesting,
            GameStatus::WaitingForVRF => GameStatus::WaitingForVRF,
            GameStatus::GeneratingProof => GameStatus::GeneratingProof,
            GameStatus::Ready => GameStatus::Ready,
            GameStatus::Failed(cause) => GameStatus::Failed(cause.duplicate()),
        }
    }

    /// Whether this status is terminal.
    pub fn terminal(&self) -> (r: bool)
        ensures
            r == is_terminal(*self),
    {
        match self {
            GameStatus::Ready => true,
            GameStatus::Failed(_) => true,
            _ => false,
        }
    }

    /// Position along the lifecycle.
    pub fn rank(&self) -> (r: u8)
        ensures
            r as int == status_rank(*self),
    {
        match self {
            GameStatus::Requesting => 0,
            GameStatus::WaitingForVRF => 1,
            GameStatus::GeneratingProof => 2,
            GameStatus::Ready => 3,
            GameStatus::Failed(_) => 4,
        }
    }
}

/// Whether a status update from `from` to `to` is legal.
pub fn can_advance_to(from: &GameStatus, to: &GameStatus) -> (r: bool)
    ensures
        r == can_advance(*from, *to),
{
    !from.terminal() && from.rank() < to.rank()
}

/// A game session waiting to become ready: its immutable parameters, the
/// randomness request bound to it, and its current status.
#[derive(Debug, Clone, PartialEq)]
pub struct PendingGame {
    pub session_id: u64,
    pub vrf_request_id: u64,
    pub vrf_block_number: u64,
    pub num_players: u8,
    pub cards_per_player: u8,
    pub requested_at: u64,
    pub status: GameStatus,
}

/// What a caller gets back immediately after initiating a game.
#[derive(Debug, Clone, PartialEq)]
pub struct GameInitiation {
    pub session_id: u64,
    pub status: GameStatus,
    pub estimated_wait_seconds: u64,
    pub vrf_request_id: u64,
}

/// Answer to a status query.
#[derive(Debug, Clone, PartialEq)]
pub struct GameStatusResponse {
    pub session_id: u64,
    pub status: GameStatus,
    pub elapsed_seconds: u64,
    pub vrf_request_id: Option<u64>,
}

/// Seconds since the Unix epoch, read from the system clock.
///
/// Relies on `std::time::SystemTime::now` and
/// `std::time::SystemTime::duration_since`: the reading depends on the
/// machine's clock, so nothing is promised of the result.
#[verifier::external_body]
pub fn current_timestamp() -> u64 {
    std::time::SystemTime::now()
        .duration_since(std::time::UNIX_EPOCH)
        .map(|d| d.as_secs())
        .unwrap_or(0)
}

} // verus!
