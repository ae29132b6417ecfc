//! The session orchestrator: it owns the pending-session registry, the store
//! of completed games and the set of sessions with a finalize attempt in
//! flight, and makes every decision of the session workflow.  The callers
//! run the clocks and the network and feed outcomes back in.

use vstd::prelude::*;
use crate::registry::{RegistryError, SessionRegistry, session_expired};
use crate::rules::{
    DECK_SIZE, ValidationError, params_valid, perform_shuffle, shuffled_of, spec_validate,
    validate_game_params, base_deck,
};
use crate::state::{
    GameState, cards_in_range, lemma_multiset_equal_in_range, lemma_sum_uniform, sum_hand_lens,
};
use crate::storage::{
    FailureCause, GameInitiation, GameStatus, GameStatusResponse, PendingGame, can_advance,
};
use crate::vrf::BlockchainSeed;

verus! {

/// How long a client is told to expect to wait for a new session.
pub const ESTIMATED_WAIT_SECS: u64 = 60;

/// Interval of the periodic fulfillment-check scheduler.
pub const FULFILLMENT_CHECK_INTERVAL_SECS: u64 = 5;

/// Per-attempt window for retrieving randomness.  It is shorter than the
/// scheduler interval, so an attempt that exhausts its window ends before
/// the next tick would consider the session again.
pub const FINALIZE_ATTEMPT_TIMEOUT_SECS: u64 = 3;

/// Law: a finalize attempt's window fits inside one scheduler tick, so an
/// attempt never outlives the tick that launched it.
pub proof fn lemma_attempt_window_within_tick()
    ensures
        FINALIZE_ATTEMPT_TIMEOUT_SECS < FULFILLMENT_CHECK_INTERVAL_SECS,
{
}

/// Interval of the periodic expiry sweeper.
pub const CLEANUP_INTERVAL_SECS: u64 = 300;

/// Retention window: a session not finished within it is purged.
pub const GAME_TTL_SECS: u64 = 600;

/// Why a result query returned no game.
#[derive(Debug, Clone, Copy, PartialEq, Eq, Structural)]
pub enum ResultError {
    /// The session exists but has not reached `Ready`.
    NotReady,
    /// No session with the given id, or it expired.
    NotFound,
}

spec fn cg_has_id(s: Seq<(u64, GameState)>, id: u64) -> bool {
    exists|i: int| 0 <= i < s.len() && (#[trigger] s[i]).0 == id
}

spec fn cg_index(s: Seq<(u64, GameState)>, id: u64) -> int {
    choose|i: int| 0 <= i < s.len() && (#[trigger] s[i]).0 == id
}

spec fn cg_map(s: Seq<(u64, GameState)>) -> Map<u64, GameState> {
    Map::new(|id: u64| cg_has_id(s, id), |id: u64| s[cg_index(s, id)].1)
}

spec fn cg_distinct(s: Seq<(u64, GameState)>) -> bool {
    forall|i: int, j: int| 0 <= i < j < s.len() ==> (#[trigger] s[i]).0 != (#[trigger] s[j]).0
}

proof fn cg_map_props(s: Seq<(u64, GameState)>)
    requires
        cg_distinct(s),
    ensures
        forall|id: u64| #[trigger] cg_map(s).contains_key(id) <==> cg_has_id(s, id),
        forall|i: int| 0 <= i < s.len() ==> cg_map(s)[(#[trigger] s[i]).0] == s[i].1,
{
    assert forall|i: int| 0 <= i < s.len() implies cg_map(s)[(#[trigger] s[i]).0] == s[i].1 by {
        let id = s[i].0;
        assert(cg_has_id(s, id));
        let w = cg_index(s, id);
        assert(0 <= w < s.len() && s[w].0 == id);
        assert(w == i);
    }
}

/// Completed games, ready to play, keyed by session id.
pub struct CompletedGames {
    entries: Vec<(u64, GameState)>,
}

impl View for CompletedGames {
    type V = Map<u64, GameState>;

    closed spec fn view(&self) -> Map<u64, GameState> {
        cg_map(self.entries@)
    }
}

impl CompletedGames {
    /// Internal shape: one entry per session id.
    pub closed spec fn wf(&self) -> bool {
        cg_distinct(self.entries@)
    }

    /// An empty store.
    pub fn new() -> (r: CompletedGames)
        ensures
            r.wf(),
            r@ == Map::<u64, GameState>::empty(),
    {
        let r = CompletedGames { entries: Vec::new() };
        proof {
            assert(r@ =~= Map::<u64, GameState>::empty());
        }
        r
    }

    fn find_index(&self, session_id: u64) -> (r: Option<usize>)
        ensures
            match r {
                Some(i) => i < self.entries@.len() && self.entries@[i as int].0 == session_id,
                None => !cg_has_id(self.entries@, session_id),
            },
    {
        let n = self.entries.len();
        let mut i: usize = 0;
        while i < n
            invariant
                i <= n,
                n == self.entries@.len(),
                forall|k: int| 0 <= k < i as int ==> (#[trigger] self.entries@[k]).0 != session_id,
            decreases n - i,
        {
            if self.entries[i].0 == session_id {
                return Some(i);
            }
            i += 1;
        }
        None
    }

    /// Store a game under its session id, replacing any earlier one.
    pub fn insert(&mut self, session_id: u64, game: GameState)
        requires
            old(self).wf(),
        ensures
            final(self).wf(),
            final(self)@ == old(self)@.insert(session_id, game),
    {
        let ghost olds = self.entries@;
        match self.find_index(session_id) {
            Some(i) => {
                self.entries.remove(i);
                self.entries.insert(i, (session_id, game));
                proof {
                    assert(self.entries@ =~= olds.update(i as int, (session_id, game)));
                    cg_map_props(olds);
                    cg_map_props(self.entries@);
                    assert forall|k: u64| #[trigger] cg_map(self.entries@).contains_key(k) implies
                        cg_map(olds).insert(session_id, game).contains_key(k) by {
                        let w = cg_index(self.entries@, k);
                        if w != i {
                            assert(olds[w].0 == k);
                        }
                    }
                    assert forall|k: u64| #[trigger] cg_map(olds).insert(
                        session_id,
                        game,
                    ).contains_key(k) implies cg_map(self.entries@).contains_key(k) by {
                        if k == session_id {
                            assert(self.entries@[i as int].0 == k);
                        } else {
                            let w = cg_index(olds, k);
                            assert(w != i);
                            assert(self.entries@[w].0 == k);
                        }
                    }
                    assert forall|k: u64| #[trigger] cg_map(self.entries@).contains_key(k) implies
                        cg_map(self.entries@)[k] == cg_map(olds).insert(session_id, game)[k] by {
                        let w = cg_index(self.entries@, k);
                        assert(self.entries@[w].0 == k);
                        assert(cg_map(self.entries@)[k] == self.entries@[w].1);
                        if k == session_id {
                            assert(w == i);
                        } else {
                            assert(w != i);
                            assert(olds[w] == self.entries@[w]);
                            assert(cg_map(olds)[olds[w].0] == olds[w].1);
                        }
                    }
                    assert(cg_map(self.entries@) =~= cg_map(olds).insert(session_id, game));
                }
            },
            None => {
                self.entries.push((session_id, game));
                proof {
                    cg_map_props(olds);
                    cg_map_props(self.entries@);
                    assert forall|k: u64| #[trigger] cg_map(self.entries@).contains_key(k) implies
                        cg_map(olds).insert(session_id, game).contains_key(k) by {
                        let w = cg_index(self.entries@, k);
                        if w < olds.len() {
                            assert(cg_has_id(olds, k));
                        }
                    }
                    assert forall|k: u64| #[trigger] cg_map(olds).insert(
                        session_id,
                        game,
                    ).contains_key(k) implies cg_map(self.entries@).contains_key(k) by {
                        if k == session_id {
                            assert(self.entries@[olds.len() as int].0 == k);
                        } else {
                            let w = cg_index(olds, k);
                            assert(self.entries@[w].0 == k);
                        }
                    }
                    assert forall|k: u64| #[trigger] cg_map(self.entries@).contains_key(k) implies
                        cg_map(self.entries@)[k] == cg_map(olds).insert(session_id, game)[k] by {
                        let w = cg_index(self.entries@, k);
                        assert(self.entries@[w].0 == k);
                        assert(cg_map(self.entries@)[k] == self.entries@[w].1);
                        if k == session_id {
                            assert(w == olds.len() as int);
                        } else {
                            assert(w < olds.len());
                            assert(olds[w] == self.entries@[w]);
                            assert(cg_map(olds)[olds[w].0] == olds[w].1);
                        }
                    }
                    assert(cg_map(self.entries@) =~= cg_map(olds).insert(session_id, game));
                }
            },
        }
    }

    /// Read the game stored under a session id.
    pub fn get(&self, session_id: u64) -> (r: Option<&GameState>)
        requires
            self.wf(),
        ensures
            match r {
                Some(g) => self@.contains_key(session_id) && *g == self@[session_id],
                None => !self@.contains_key(session_id),
            },
    {
        proof {
            cg_map_props(self.entries@);
        }
        match self.find_index(session_id) {
            Some(i) => Some(&self.entries[i].1),
            None => None,
        }
    }
}

/// The orchestrator of game sessions.
pub struct GameOrchestrator {
    pending_games: SessionRegistry,
    completed_games: CompletedGames,
    in_flight: Vec<u64>,
}

impl GameOrchestrator {
    /// The pending sessions, by id.
    pub closed spec fn pending(&self) -> Map<u64, PendingGame> {
        self.pending_games@
    }

    /// The completed games, by id.
    pub closed spec fn completed(&self) -> Map<u64, GameState> {
        self.completed_games@
    }

    /// The sessions with a finalize attempt currently in flight.
    pub closed spec fn in_flight(&self) -> Set<u64> {
        self.in_flight@.to_set()
    }

    /// The id the next session will get.
    pub closed spec fn next_session_id(&self) -> u64 {
        self.pending_games.next_session_id()
    }

    /// Number of pending records.
    pub closed spec fn pending_count(&self) -> nat {
        self.pending_games.count()
    }

    /// Internal shape of the three stores, and their tie: a game is in the
    /// completed store exactly when its session record has reached `Ready`.
    pub closed spec fn wf(&self) -> bool {
        &&& self.pending_games.wf()
        &&& self.completed_games.wf()
        &&& self.in_flight@.no_duplicates()
        &&& forall|id: u64| #[trigger]
            self.completed_games@.contains_key(id) <==> (self.pending_games@.contains_key(id)
                && self.pending_games@[id].status is Ready)
    }

    /// Law: the registry holds one record per id: its size equals the number
    /// of ids it knows.
    pub proof fn lemma_pending_ids_unique(&self)
        requires
            self.wf(),
        ensures
            self.pending().dom().finite(),
            self.pending().len() == self.pending_count(),
    {
        self.pending_games.lemma_session_ids_unique();
    }

    /// An orchestrator with no sessions.
    pub fn new() -> (r: GameOrchestrator)
        ensures
            r.wf(),
            r.pending() == Map::<u64, PendingGame>::empty(),
            r.completed() == Map::<u64, GameState>::empty(),
            r.in_flight() == Set::<u64>::empty(),
            r.next_session_id() == 0,
            r.pending_count() == 0,
    {
        let r = GameOrchestrator {
            pending_games: SessionRegistry::new(),
            completed_games: CompletedGames::new(),
            in_flight: Vec::new(),
        };
        proof {
            assert(r.in_flight() =~= Set::<u64>::empty());
        }
        r
    }

    /// Initiate a game: validate the parameters and register a fresh session
    /// in `Requesting`.  Rejected parameters leave the orchestrator
    /// untouched.  The oracle request itself happens outside; its outcome
    /// comes back through `record_vrf_request` or `fail_game`.
    pub fn initiate_game(&mut self, num_players: u8, cards_per_player: u8, now: u64) -> (r: Result<
        GameInitiation,
        ValidationError,
    >)
        requires
            old(self).wf(),
            old(self).next_session_id() < u64::MAX,
        ensures
            final(self).wf(),
            final(self).completed() == old(self).completed(),
            final(self).in_flight() == old(self).in_flight(),
            r is Ok <==> params_valid(num_players, cards_per_player),
            r is Err ==> Err::<(), ValidationError>(r->Err_0) == spec_validate(
                num_players,
                cards_per_player,
            ) && *final(self) == *old(self),
            r matches Ok(g) ==> ({
                let id = g.session_id;
                &&& id == old(self).next_session_id()
                &&& !old(self).pending().contains_key(id)
                &&& final(self).next_session_id() == old(self).next_session_id() + 1
                &&& final(self).pending() == old(self).pending().insert(
                    id,
                    PendingGame {
                        session_id: id,
                        vrf_request_id: 0,
                        vrf_block_number: 0,
                        num_players,
                        cards_per_player,
                        requested_at: now,
                        status: GameStatus::Requesting,
                    },
                )
                &&& final(self).pending_count() == old(self).pending_count() + 1
                &&& g.status is Requesting
                &&& g.estimated_wait_seconds == ESTIMATED_WAIT_SECS
                &&& g.vrf_request_id == 0
            }),
    {
        match validate_game_params(num_players, cards_per_player) {
            Ok(()) => {},
            Err(e) => {
                return Err(e);
            },
        }
        let session_id = self.pending_games.create(num_players, cards_per_player, now);
        Ok(
            GameInitiation {
                session_id,
                status: GameStatus::Requesting,
                estimated_wait_seconds: ESTIMATED_WAIT_SECS,
                vrf_request_id: 0,
            },
        )
    }

    /// Record that the oracle acknowledged the session's randomness request:
    /// the request id and block are stored and the session moves to
    /// `WaitingForVRF`.
    pub fn record_vrf_request(&mut self, session_id: u64, request_id: u64, block_number: u64) -> (r:
        Result<(), RegistryError>)
        requires
            old(self).wf(),
        ensures
            final(self).wf(),
            final(self).completed() == old(self).completed(),
            final(self).in_flight() == old(self).in_flight(),
            final(self).next_session_id() == old(self).next_session_id(),
            r is Ok <==> old(self).pending().contains_key(session_id) && old(
                self,
            ).pending()[session_id].status is Requesting,
            r is Ok ==> final(self).pending() == old(self).pending().insert(
                session_id,
                PendingGame {
                    vrf_request_id: request_id,
                    vrf_block_number: block_number,
                    status: GameStatus::WaitingForVRF,
                    ..old(self).pending()[session_id]
                },
            ) && final(self).pending_count() == old(self).pending_count(),
            r == Err::<(), RegistryError>(RegistryError::NotFound) <==> !old(
                self,
            ).pending().contains_key(session_id),
            r is Err ==> *final(self) == *old(self),
    {
        self.pending_games.set_vrf_request(session_id, request_id, block_number)
    }

    /// Record a terminal failure of the session, for the recorded cause.
    /// Already-terminal sessions are left alone.
    pub fn fail_game(&mut self, session_id: u64, cause: FailureCause) -> (r: Result<
        (),
        RegistryError,
    >)
        requires
            old(self).wf(),
        ensures
            final(self).wf(),
            final(self).completed() == old(self).completed(),
            final(self).in_flight() == old(self).in_flight(),
            final(self).next_session_id() == old(self).next_session_id(),
            r is Ok <==> old(self).pending().contains_key(session_id) && !crate::storage::is_terminal(
                old(self).pending()[session_id].status,
            ),
            r is Ok ==> final(self).pending() == old(self).pending().insert(
                session_id,
                PendingGame {
                    status: GameStatus::Failed(cause),
                    ..old(self).pending()[session_id]
                },
            ) && final(self).pending_count() == old(self).pending_count(),
            r == Err::<(), RegistryError>(RegistryError::NotFound) <==> !old(
                self,
            ).pending().contains_key(session_id),
            r is Err ==> *final(self) == *old(self),
    {
        self.pending_games.transition(session_id, GameStatus::Failed(cause))
    }

    /// Move a session to `GeneratingProof` once its randomness arrived.
    pub fn mark_generating_proof(&mut self, session_id: u64) -> (r: Result<(), RegistryError>)
        requires
            old(self).wf(),
        ensures
            final(self).wf(),
            final(self).completed() == old(self).completed(),
            final(self).in_flight() == old(self).in_flight(),
            final(self).next_session_id() == old(self).next_session_id(),
            r is Ok <==> old(self).pending().contains_key(session_id) && can_advance(
                old(self).pending()[session_id].status,
                GameStatus::GeneratingProof,
            ),
            r is Ok ==> final(self).pending() == old(self).pending().insert(
                session_id,
                PendingGame {
                    status: GameStatus::GeneratingProof,
                    ..old(self).pending()[session_id]
                },
            ) && final(self).pending_count() == old(self).pending_count(),
            r is Err ==> *final(self) == *old(self),
    {
        self.pending_games.transition(session_id, GameStatus::GeneratingProof)
    }

    /// Store the finished game and move the session to `Ready`.
    pub fn complete_game(&mut self, session_id: u64, game: GameState) -> (r: Result<
        (),
        RegistryError,
    >)
        requires
            old(self).wf(),
        ensures
            final(self).wf(),
            final(self).in_flight() == old(self).in_flight(),
            final(self).next_session_id() == old(self).next_session_id(),
            r is Ok <==> old(self).pending().contains_key(session_id) && can_advance(
                old(self).pending()[session_id].status,
                GameStatus::Ready,
            ),
            r is Ok ==> final(self).pending() == old(self).pending().insert(
                session_id,
                PendingGame { status: GameStatus::Ready, ..old(self).pending()[session_id] },
            ) && final(self).completed() == old(self).completed().insert(session_id, game)
                && final(self).pending_count() == old(self).pending_count(),
            r is Err ==> *final(self) == *old(self),
    {
        match self.pending_games.transition(session_id, GameStatus::Ready) {
            Ok(()) => {},
            Err(e) => {
                return Err(e);
            },
        }
        self.completed_games.insert(session_id, game);
        Ok(())
    }

    fn in_flight_contains(&self, session_id: u64) -> (r: bool)
        ensures
            r == self.in_flight().contains(session_id),
    {
        let n = self.in_flight.len();
        let mut i: usize = 0;
        while i < n
            invariant
                i <= n,
                n == self.in_flight@.len(),
                forall|k: int| 0 <= k < i as int ==> self.in_flight@[k] != session_id,
            decreases n - i,
        {
            if self.in_flight[i] == session_id {
                proof {
                    assert(self.in_flight@.contains(session_id));
                }
                return true;
            }
            i += 1;
        }
        proof {
            assert(!self.in_flight@.contains(session_id));
        }
        false
    }

    /// Claim the finalize slot for a session.  True when no other finalize
    /// attempt is in flight for it; a second claim before `finish_finalize`
    /// is refused, so overlapping scheduler ticks never process one session
    /// twice.
    pub fn begin_finalize(&mut self, session_id: u64) -> (r: bool)
        requires
            old(self).wf(),
        ensures
            final(self).wf(),
            final(self).pending() == old(self).pending(),
            final(self).completed() == old(self).completed(),
            final(self).next_session_id() == old(self).next_session_id(),
            r == !old(self).in_flight().contains(session_id),
            final(self).in_flight() == old(self).in_flight().insert(session_id),
    {
        if self.in_flight_contains(session_id) {
            proof {
                assert(final(self).in_flight() =~= old(self).in_flight().insert(session_id));
            }
            return false;
        }
        let ghost olds = self.in_flight@;
        self.in_flight.push(session_id);
        proof {
            assert forall|x: u64| #[trigger] self.in_flight@.contains(x) implies olds.contains(x)
                || x == session_id by {
                let w = choose|w: int| 0 <= w < self.in_flight@.len() && self.in_flight@[w] == x;
                if w < olds.len() {
                    assert(olds[w] == x);
                }
            }
            assert forall|x: u64| olds.contains(x) || x == session_id implies #[trigger]
                self.in_flight@.contains(x) by {
                if olds.contains(x) {
                    let w = choose|w: int| 0 <= w < olds.len() && olds[w] == x;
                    assert(self.in_flight@[w] == x);
                } else {
                    assert(self.in_flight@[olds.len() as int] == x);
                }
            }
            assert(final(self).in_flight() =~= old(self).in_flight().insert(session_id));
        }
        true
    }

    /// Release the finalize slot for a session.
    pub fn finish_finalize(&mut self, session_id: u64)
        requires
            old(self).wf(),
        ensures
            final(self).wf(),
            final(self).pending() == old(self).pending(),
            final(self).completed() == old(self).completed(),
            final(self).next_session_id() == old(self).next_session_id(),
            final(self).in_flight() == old(self).in_flight().remove(session_id),
    {
        let n = self.in_flight.len();
        let mut i: usize = 0;
        while i < n
            invariant
                *self == *old(self),
                old(self).wf(),
                i <= n,
                n == self.in_flight@.len(),
                forall|k: int| 0 <= k < i as int ==> self.in_flight@[k] != session_id,
            decreases n - i,
        {
            if self.in_flight[i] == session_id {
                let ghost olds = self.in_flight@;
                self.in_flight.remove(i);
                proof {
                    assert(olds[i as int] == session_id);
                    assert forall|k: int, l: int|
                        0 <= k < l < self.in_flight@.len() implies self.in_flight@[k]
                        != self.in_flight@[l] by {
                        let ok = if k < i as int {
                            k
                        } else {
                            k + 1
                        };
                        let ol = if l < i as int {
                            l
                        } else {
                            l + 1
                        };
                        assert(self.in_flight@[k] == olds[ok]);
                        assert(self.in_flight@[l] == olds[ol]);
                    }
                    assert forall|x: u64| #[trigger] self.in_flight@.contains(x) implies
                        olds.contains(x) && x != session_id by {
                        let w = choose|w: int|
                            0 <= w < self.in_flight@.len() && self.in_flight@[w] == x;
                        if w < i as int {
                            assert(olds[w] == x);
                        } else {
                            assert(olds[w + 1] == x);
                            assert(w + 1 != i as int);
                        }
                    }
                    assert forall|x: u64| olds.contains(x) && x != session_id implies #[trigger]
                        self.in_flight@.contains(x) by {
                        let w = choose|w: int| 0 <= w < olds.len() && olds[w] == x;
                        assert(w != i as int);
                        if w < i as int {
                            assert(self.in_flight@[w] == x);
                        } else {
                            assert(self.in_flight@[w - 1] == x);
                        }
                    }
                    assert(final(self).in_flight() =~= old(self).in_flight().remove(session_id));
                }
                return ;
            }
            i += 1;
        }
        proof {
            assert(!self.in_flight@.contains(session_id));
            assert(final(self).in_flight() =~= old(self).in_flight().remove(session_id));
        }
    }

    /// The sessions a scheduler tick should try to finalize: those waiting
    /// for randomness with no attempt already in flight.
    pub fn games_to_check(&self) -> (r: Vec<u64>)
        requires
            self.wf(),
        ensures
            forall|j: int|
                0 <= j < r@.len() ==> ({
                    let id = #[trigger] r@[j];
                    &&& self.pending().contains_key(id)
                    &&& self.pending()[id].status is WaitingForVRF
                    &&& !self.in_flight().contains(id)
                }),
            forall|id: u64|
                (#[trigger] self.pending().contains_key(id)
                    && self.pending()[id].status is WaitingForVRF && !self.in_flight().contains(id))
                    ==> r@.contains(id),
            r@.no_duplicates(),
    {
        let ghost ids = self.pending_games.ids();
        proof {
            self.pending_games.lemma_ids();
        }
        let n = self.pending_games.len();
        let mut r: Vec<u64> = Vec::new();
        let mut i: usize = 0;
        while i < n
            invariant
                self.wf(),
                i <= n,
                n == self.pending_games.count(),
                ids == self.pending_games.ids(),
                forall|j: int|
                    0 <= j < r@.len() ==> ({
                        let id = #[trigger] r@[j];
                        &&& self.pending().contains_key(id)
                        &&& self.pending()[id].status is WaitingForVRF
                        &&& !self.in_flight().contains(id)
                    }),
                forall|k: int|
                    0 <= k < i as int && self.pending()[#[trigger] ids[k]].status is WaitingForVRF
                        && !self.in_flight().contains(ids[k]) ==> r@.contains(ids[k]),
                r@.len() <= i as int,
                forall|a: int, b: int| 0 <= a < b < r@.len() ==> #[trigger] r@[a] < #[trigger] r@[b],
                i > 0 ==> forall|a: int| 0 <= a < r@.len() ==> #[trigger] r@[a] <= ids[i - 1],
            decreases n - i,
        {
            let g = self.pending_games.entry_at(i);
            let waiting = match &g.status {
                GameStatus::WaitingForVRF => true,
                _ => false,
            };
            let id = g.session_id;
            if waiting && !self.in_flight_contains(id) {
                let ghost oldr = r@;
                r.push(id);
                proof {
                    self.pending_games.lemma_ids();
                    assert forall|a: int, b: int| 0 <= a < b < r@.len() implies #[trigger] r@[a]
                        < #[trigger] r@[b] by {
                        if b < oldr.len() {
                            assert(r@[a] == oldr[a] && r@[b] == oldr[b]);
                        } else {
                            assert(r@[b] == ids[i as int]);
                            assert(r@[a] == oldr[a]);
                            if i > 0 {
                                assert(oldr[a] <= ids[i as int - 1]);
                                assert(ids[i as int - 1] < ids[i as int]);
                            }
                        }
                    }
                    assert forall|k: int|
                        0 <= k < i as int + 1 && self.pending()[
                        #[trigger] ids[k]].status is WaitingForVRF && !self.in_flight().contains(
                            ids[k],
                        ) implies r@.contains(ids[k]) by {
                        if k < i as int {
                            assert(oldr.contains(ids[k]));
                            let w = choose|w: int| 0 <= w < oldr.len() && oldr[w] == ids[k];
                            assert(r@[w] == ids[k]);
                        } else {
                            assert(r@[oldr.len() as int] == ids[k]);
                        }
                    }
                }
            }
            proof {
                self.pending_games.lemma_ids();
                if i > 0 {
                    assert(ids[i as int - 1] < ids[i as int]);
                }
            }
            i += 1;
        }
        proof {
            assert forall|id: u64|
                (#[trigger] self.pending().contains_key(id)
                    && self.pending()[id].status is WaitingForVRF && !self.in_flight().contains(id))
                    implies r@.contains(id) by {
                assert(ids.contains(id));
                let w = choose|w: int| 0 <= w < ids.len() && ids[w] == id;
            }
            assert forall|a: int, b: int|
                0 <= a < r@.len() && 0 <= b < r@.len() && a != b implies r@[a] != r@[b] by {
                if a < b {
                    assert(r@[a] < r@[b]);
                } else {
                    assert(r@[b] < r@[a]);
                }
            }
        }
        r
    }

    /// Answer a status query: a known session reports its status, its
    /// elapsed age and its request id — terminal records persist, so a
    /// `Ready` or `Failed` session keeps answering; an unknown or expired id
    /// is `NotFound`.
    pub fn get_game_status(&self, session_id: u64, now: u64) -> (r: Result<
        GameStatusResponse,
        RegistryError,
    >)
        requires
            self.wf(),
        ensures
            self.pending().contains_key(session_id) ==> (r matches Ok(resp) ==> resp
                == (GameStatusResponse {
                session_id,
                status: self.pending()[session_id].status,
                elapsed_seconds: if now >= self.pending()[session_id].requested_at {
                    (now - self.pending()[session_id].requested_at) as u64
                } else {
                    0u64
                },
                vrf_request_id: Some(self.pending()[session_id].vrf_request_id),
            })) && r is Ok,
            !self.pending().contains_key(session_id) ==> r == Err::<
                GameStatusResponse,
                RegistryError,
            >(RegistryError::NotFound),
    {
        match self.pending_games.get(session_id) {
            Some(pending) => {
                let elapsed = if now >= pending.requested_at {
                    now - pending.requested_at
                } else {
                    0
                };
                Ok(
                    GameStatusResponse {
                        session_id,
                        status: pending.status.duplicate(),
                        elapsed_seconds: elapsed,
                        vrf_request_id: Some(pending.vrf_request_id),
                    },
                )
            },
            None => Err(RegistryError::NotFound),
        }
    }

    /// Read a pending session's record.
    pub fn pending_record(&self, session_id: u64) -> (r: Option<&PendingGame>)
        requires
            self.wf(),
        ensures
            match r {
                Some(g) => self.pending().contains_key(session_id) && *g
                    == self.pending()[session_id],
                None => !self.pending().contains_key(session_id),
            },
    {
        self.pending_games.get(session_id)
    }

    /// Read a session's finished game.  A known session that has not reached
    /// `Ready` answers `NotReady`; an unknown or expired id answers
    /// `NotFound`.
    pub fn get_game_state(&self, session_id: u64) -> (r: Result<&GameState, ResultError>)
        requires
            self.wf(),
        ensures
            r is Ok <==> (self.pending().contains_key(session_id) && self.pending()[
                session_id].status is Ready),
            r matches Ok(g) ==> self.completed().contains_key(session_id) && *g
                == self.completed()[session_id],
            r == Err::<&GameState, ResultError>(ResultError::NotReady) <==> (
            self.pending().contains_key(session_id) && !(self.pending()[
                session_id].status is Ready)),
            r == Err::<&GameState, ResultError>(ResultError::NotFound) <==> !self.pending().contains_key(
                session_id,
            ),
    {
        match self.completed_games.get(session_id) {
            Some(g) => Ok(g),
            None => {
                if self.pending_games.get(session_id).is_some() {
                    Err(ResultError::NotReady)
                } else {
                    Err(ResultError::NotFound)
                }
            },
        }
    }

    /// Whether another session can still be allocated a fresh id.
    pub fn can_accept_sessions(&self) -> (r: bool)
        ensures
            r == (self.next_session_id() < u64::MAX),
    {
        self.pending_games.has_free_ids()
    }

    /// Number of pending session records held.
    pub fn pending_len(&self) -> (r: usize)
        ensures
            r == self.pending_count(),
    {
        self.pending_games.len()
    }

    /// Purge every non-terminal session older than the retention window.
    /// Returns how many were removed; a removed id is unknown from then on.
    pub fn cleanup_expired_games(&mut self, now: u64) -> (removed: usize)
        requires
            old(self).wf(),
        ensures
            final(self).wf(),
            final(self).completed() == old(self).completed(),
            final(self).in_flight() == old(self).in_flight(),
            final(self).next_session_id() == old(self).next_session_id(),
            forall|id: u64| #[trigger]
                final(self).pending().contains_key(id) <==> (old(self).pending().contains_key(id)
                    && !session_expired(old(self).pending()[id], now, GAME_TTL_SECS)),
            forall|id: u64| #[trigger]
                final(self).pending().contains_key(id) ==> final(self).pending()[id] == old(
                    self,
                ).pending()[id],
            old(self).pending_count() == final(self).pending_count() + removed,
    {
        self.pending_games.sweep(now, GAME_TTL_SECS)
    }
}

/// Assemble the finished game for a session: validate, deal the deck from
/// the random value, and bind the seed and the artifact reference.
pub fn build_game_state(
    num_players: u8,
    cards_per_player: u8,
    random_value: &[u8; 32],
    request_id: u64,
    proof_cid: Option<String>,
) -> (r: Result<GameState, ValidationError>)
    ensures
        r is Ok <==> params_valid(num_players, cards_per_player),
        r is Err ==> Err::<(), ValidationError>(r->Err_0) == spec_validate(
            num_players,
            cards_per_player,
        ),
        r matches Ok(g) ==> ({
            let shuffled = shuffled_of(base_deck(), random_value@);
            let p = num_players as int;
            let c = cards_per_player as int;
            &&& g.wf()
            &&& g.is_shuffled
            &&& g.player_hands@.len() == p
            &&& (forall|k: int| 0 <= k < p ==> (#[trigger] g.player_hands@[k])@.len() == c)
            &&& (forall|k: int, j: int|
                0 <= k < p && 0 <= j < c ==> (#[trigger] g.player_hands@[k]@[j]) == shuffled[j * p
                    + k])
            &&& g.draw_pile@ == shuffled.subrange(p * c, DECK_SIZE as int)
            &&& g.draw_pile@.len() == DECK_SIZE as int - p * c
            &&& g.discard_pile@.len() == 0
            &&& g.seed_metadata == (BlockchainSeed { value: *random_value, request_id })
            &&& g.proof_cid == proof_cid
        }),
{
    let outcome = match perform_shuffle(num_players, cards_per_player, random_value) {
        Ok(o) => o,
        Err(e) => {
            return Err(e);
        },
    };
    let game = GameState {
        player_hands: outcome.player_hands,
        draw_pile: outcome.draw_pile,
        discard_pile: Vec::new(),
        is_shuffled: true,
        seed_metadata: BlockchainSeed { value: *random_value, request_id },
        proof_cid,
    };
    proof {
        let shuffled = shuffled_of(base_deck(), random_value@);
        let p = num_players as int;
        let c = cards_per_player as int;
        assert(cards_in_range(base_deck()));
        lemma_multiset_equal_in_range(shuffled, base_deck());
        assert forall|k: int| 0 <= k < p implies cards_in_range(
            (#[trigger] game.player_hands@[k])@,
        ) by {
            assert forall|j: int|
                0 <= j < game.player_hands@[k]@.len() implies (#[trigger] game.player_hands@[k]@[j])
                < DECK_SIZE as u8 by {
                assert(game.player_hands@[k]@[j] == shuffled[j * p + k]);
                assert(0 <= j * p + k < shuffled.len()) by (nonlinear_arith)
                    requires
                        0 <= j < c,
                        0 <= k < p,
                        p * c <= shuffled.len(),
                ;
            }
        }
        assert(cards_in_range(game.draw_pile@)) by {
            assert forall|i: int|
                0 <= i < game.draw_pile@.len() implies (#[trigger] game.draw_pile@[i])
                < DECK_SIZE as u8 by {
                assert(game.draw_pile@[i] == shuffled[p * c + i]);
            }
        }
        lemma_sum_uniform(game.player_hands@, p, c);
        assert(sum_hand_lens(game.player_hands@, p) == p * c);
        assert(game.spec_total() == DECK_SIZE as int);
    }
    Ok(game)
}

} // verus!
