//! The session registry: a map of session records, viewed as a
//! `Map<u64, PendingGame>`, with forward-only status updates, fresh id
//! allocation and a retention sweep.

use vstd::prelude::*;
use crate::storage::{GameStatus, PendingGame, can_advance, can_advance_to, is_terminal};

verus! {

/// Why a registry operation was refused.
#[derive(Debug, Clone, Copy, PartialEq, Eq, Structural)]
pub enum RegistryError {
    /// No record with the given session id.
    NotFound,
    /// The requested status update would not move forward.
    IllegalTransition,
}

/// Some record in `s` carries `id`.
spec fn seq_has_id(s: Seq<PendingGame>, id: u64) -> bool {
    exists|i: int| 0 <= i < s.len() && (#[trigger] s[i]).session_id == id
}

/// Index of a record carrying `id`, when one exists.
spec fn seq_id_index(s: Seq<PendingGame>, id: u64) -> int {
    choose|i: int| 0 <= i < s.len() && (#[trigger] s[i]).session_id == id
}

/// The records of `s`, keyed by session id.
spec fn seq_as_map(s: Seq<PendingGame>) -> Map<u64, PendingGame> {
    Map::new(|id: u64| seq_has_id(s, id), |id: u64| s[seq_id_index(s, id)])
}

/// Session ids strictly increase along `s`.
spec fn ids_sorted(s: Seq<PendingGame>) -> bool {
    forall|i: int, j: int|
        0 <= i < j < s.len() ==> (#[trigger] s[i]).session_id < (#[trigger] s[j]).session_id
}

proof fn lemma_sorted_ids_distinct(s: Seq<PendingGame>)
    requires
        ids_sorted(s),
    ensures
        forall|i: int, j: int|
            0 <= i < s.len() && 0 <= j < s.len() && i != j ==> (#[trigger] s[i]).session_id != (
            #[trigger] s[j]).session_id,
{
}

/// With sorted ids, the map view agrees with the sequence: an id is a key
/// exactly when a record carries it, and that record is the key's value.
proof fn lemma_map_props(s: Seq<PendingGame>)
    requires
        ids_sorted(s),
    ensures
        forall|id: u64| #[trigger] seq_as_map(s).contains_key(id) <==> seq_has_id(s, id),
        forall|i: int|
            0 <= i < s.len() ==> seq_as_map(s)[(#[trigger] s[i]).session_id] == s[i],
{
    lemma_sorted_ids_distinct(s);
    assert forall|i: int| 0 <= i < s.len() implies seq_as_map(s)[(#[trigger] s[i]).session_id]
        == s[i] by {
        let id = s[i].session_id;
        assert(seq_has_id(s, id));
        let w = seq_id_index(s, id);
        assert(0 <= w < s.len() && s[w].session_id == id);
        assert(w == i);
    }
}

/// The registry of pending game sessions.  It owns every record; callers read
/// through references and mutate only through its operations.
pub struct SessionRegistry {
    next_id: u64,
    entries: Vec<PendingGame>,
}

impl View for SessionRegistry {
    type V = Map<u64, PendingGame>;

    closed spec fn view(&self) -> Map<u64, PendingGame> {
        seq_as_map(self.entries@)
    }
}

impl SessionRegistry {
    /// Internal shape: ids strictly increase along the record list and every
    /// id is below the allocator's next id, so ids are unique and a fresh id
    /// never collides.
    pub closed spec fn wf(&self) -> bool {
        &&& ids_sorted(self.entries@)
        &&& forall|i: int|
            0 <= i < self.entries@.len() ==> (#[trigger] self.entries@[i]).session_id
                < self.next_id
    }

    /// The id the next created session will get.
    pub closed spec fn next_session_id(&self) -> u64 {
        self.next_id
    }

    /// Number of records held.
    pub closed spec fn count(&self) -> nat {
        self.entries@.len()
    }

    /// Law: session ids are unique for the registry's lifetime.  Two distinct
    /// records never carry the same session id.
    pub proof fn lemma_session_ids_unique(&self)
        requires
            self.wf(),
        ensures
            self@.dom().finite(),
            self@.len() == self.count(),
    {
        broadcast use vstd::seq_lib::seq_to_set_is_finite;

        lemma_map_props(self.entries@);
        lemma_sorted_ids_distinct(self.entries@);
        let s = self.entries@;
        let ids = Seq::new(s.len(), |i: int| s[i].session_id);
        assert(ids.no_duplicates());
        assert forall|id: u64| #[trigger] ids.to_set().contains(id) implies self@.contains_key(
            id,
        ) by {
            let w = choose|i: int| 0 <= i < ids.len() && ids[i] == id;
            assert(s[w].session_id == id);
        }
        assert forall|id: u64| #[trigger] self@.contains_key(id) implies ids.to_set().contains(
            id,
        ) by {
            let w = seq_id_index(s, id);
            assert(ids[w] == id);
        }
        assert(self@.dom() =~= ids.to_set());
        ids.unique_seq_to_set();
    }

    /// The session ids, in registry order.
    pub closed spec fn ids(&self) -> Seq<u64> {
        Seq::new(self.entries@.len(), |i: int| self.entries@[i].session_id)
    }

    /// The id list enumerates the registry's keys exactly once each.
    pub proof fn lemma_ids(&self)
        requires
            self.wf(),
        ensures
            self.ids().len() == self.count(),
            forall|id: u64| #[trigger] self@.contains_key(id) <==> self.ids().contains(id),
            forall|i: int|
                0 <= i < self.ids().len() ==> self@.contains_key(#[trigger] self.ids()[i]),
            forall|i: int, j: int|
                0 <= i < j < self.ids().len() ==> #[trigger] self.ids()[i] < #[trigger] self.ids()[j],
    {
        lemma_map_props(self.entries@);
        let ids = self.ids();
        assert forall|id: u64| #[trigger] self@.contains_key(id) implies ids.contains(id) by {
            let w = seq_id_index(self.entries@, id);
            assert(ids[w] == id);
        }
        assert forall|id: u64| ids.contains(id) implies #[trigger] self@.contains_key(id) by {
            let w = choose|w: int| 0 <= w < ids.len() && ids[w] == id;
            assert(self.entries@[w].session_id == id);
        }
        assert forall|i: int| 0 <= i < ids.len() implies self@.contains_key(
            #[trigger] ids[i],
        ) by {
            assert(self.entries@[i].session_id == ids[i]);
        }
    }

    /// Whether a fresh id can still be allocated.
    pub fn has_free_ids(&self) -> (r: bool)
        ensures
            r == (self.next_session_id() < u64::MAX),
    {
        self.next_id < u64::MAX
    }

    /// Number of records held.
    pub fn len(&self) -> (r: usize)
        ensures
            r == self.count(),
    {
        self.entries.len()
    }

    /// Borrow the record at a position of the registry order.
    pub fn entry_at(&self, i: usize) -> (g: &PendingGame)
        requires
            self.wf(),
            (i as int) < self.count(),
        ensures
            g.session_id == self.ids()[i as int],
            self@.contains_key(g.session_id),
            self@[g.session_id] == *g,
    {
        proof {
            lemma_map_props(self.entries@);
        }
        &self.entries[i]
    }

    /// An empty registry.
    pub fn new() -> (r: SessionRegistry)
        ensures
            r.wf(),
            r@ == Map::<u64, PendingGame>::empty(),
            r.count() == 0,
            r.next_session_id() == 0,
    {
        let r = SessionRegistry { next_id: 0, entries: Vec::new() };
        proof {
            assert(r@ =~= Map::<u64, PendingGame>::empty());
        }
        r
    }

    fn find_index(&self, session_id: u64) -> (r: Option<usize>)
        ensures
            match r {
                Some(i) => i < self.entries@.len() && self.entries@[i as int].session_id
                    == session_id,
                None => !seq_has_id(self.entries@, session_id),
            },
    {
        let n = self.entries.len();
        let mut i: usize = 0;
        while i < n
            invariant
                i <= n,
                n == self.entries@.len(),
                forall|k: int| 0 <= k < i as int ==> (#[trigger] self.entries@[k]).session_id
                    != session_id,
            decreases n - i,
        {
            if self.entries[i].session_id == session_id {
                return Some(i);
            }
            i += 1;
        }
        None
    }

    /// Allocate a fresh id and insert a record for it in `Requesting`.
    /// The id has never been seen before: it is no key of the registry, and by
    /// construction no key of any earlier state of it.
    pub fn create(&mut self, num_players: u8, cards_per_player: u8, now: u64) -> (id: u64)
        requires
            old(self).wf(),
            old(self).next_session_id() < u64::MAX,
        ensures
            final(self).wf(),
            !old(self)@.contains_key(id),
            id == old(self).next_session_id(),
            final(self).next_session_id() == old(self).next_session_id() + 1,
            final(self).count() == old(self).count() + 1,
            final(self)@ == old(self)@.insert(
                id,
                PendingGame {
                    session_id: id,
                    vrf_request_id: 0,
                    vrf_block_number: 0,
                    num_players,
                    cards_per_player,
                    requested_at: now,
                    status: GameStatus::Requesting,
                },
            ),
    {
        let id = self.next_id;
        let record = PendingGame {
            session_id: id,
            vrf_request_id: 0,
            vrf_block_number: 0,
            num_players,
            cards_per_player,
            requested_at: now,
            status: GameStatus::Requesting,
        };
        let ghost olds = self.entries@;
        self.next_id = self.next_id + 1;
        self.entries.push(record);
        proof {
            lemma_map_props(olds);
            lemma_map_props(self.entries@);
            assert forall|k: u64| #[trigger] seq_as_map(self.entries@).contains_key(k) implies
                seq_as_map(olds).insert(id, record).contains_key(k) by {
                let w = seq_id_index(self.entries@, k);
                if w < olds.len() {
                    assert(seq_has_id(olds, k));
                }
            }
            assert forall|k: u64| #[trigger] seq_as_map(olds).insert(id, record).contains_key(k)
                implies seq_as_map(self.entries@).contains_key(k) by {
                if k == id {
                    assert(self.entries@[olds.len() as int].session_id == id);
                } else {
                    let w = seq_id_index(olds, k);
                    assert(self.entries@[w] == olds[w]);
                }
            }
            assert forall|k: u64| #[trigger] seq_as_map(self.entries@).contains_key(k) implies
                seq_as_map(self.entries@)[k] == seq_as_map(olds).insert(id, record)[k] by {
                if k == id {
                    assert(self.entries@[olds.len() as int] == record);
                    assert(seq_as_map(self.entries@)[self.entries@[olds.len() as int].session_id]
                        == self.entries@[olds.len() as int]);
                } else {
                    let w = seq_id_index(self.entries@, k);
                    assert(self.entries@[w].session_id == k);
                    assert(w < olds.len());
                    assert(olds[w] == self.entries@[w]);
                    assert(seq_as_map(olds)[olds[w].session_id] == olds[w]);
                }
            }
            assert(seq_as_map(self.entries@) =~= seq_as_map(olds).insert(id, record));
        }
        id
    }

    /// Read the record for `session_id`.
    pub fn get(&self, session_id: u64) -> (r: Option<&PendingGame>)
        requires
            self.wf(),
        ensures
            match r {
                Some(g) => self@.contains_key(session_id) && *g == self@[session_id],
                None => !self@.contains_key(session_id),
            },
    {
        proof {
            lemma_map_props(self.entries@);
        }
        match self.find_index(session_id) {
            Some(i) => Some(&self.entries[i]),
            None => None,
        }
    }

    /// Replace the record at a found index, keeping the id.
    fn replace_at(&mut self, i: usize, g: PendingGame)
        requires
            old(self).wf(),
            i < old(self).entries@.len(),
            g.session_id == old(self).entries@[i as int].session_id,
        ensures
            final(self).wf(),
            final(self).next_session_id() == old(self).next_session_id(),
            final(self).count() == old(self).count(),
            final(self).entries@ == old(self).entries@.update(i as int, g),
            final(self)@ == old(self)@.insert(g.session_id, g),
    {
        let ghost olds = self.entries@;
        self.entries.remove(i);
        self.entries.insert(i, g);
        proof {
            assert(self.entries@ =~= olds.update(i as int, g));
            lemma_map_props(olds);
            lemma_map_props(self.entries@);
            lemma_sorted_ids_distinct(olds);
            assert forall|k: u64| #[trigger] seq_as_map(self.entries@).contains_key(k) implies
                seq_as_map(olds).insert(g.session_id, g).contains_key(k) by {
                let w = seq_id_index(self.entries@, k);
                if w != i {
                    assert(olds[w].session_id == k);
                }
            }
            assert forall|k: u64| #[trigger] seq_as_map(olds).insert(g.session_id, g).contains_key(
                k,
            ) implies seq_as_map(self.entries@).contains_key(k) by {
                if k == g.session_id {
                    assert(self.entries@[i as int].session_id == k);
                } else {
                    let w = seq_id_index(olds, k);
                    assert(w != i);
                    assert(self.entries@[w].session_id == k);
                }
            }
            assert forall|k: u64| #[trigger] seq_as_map(self.entries@).contains_key(k) implies
                seq_as_map(self.entries@)[k] == seq_as_map(olds).insert(g.session_id, g)[k] by {
                let w = seq_id_index(self.entries@, k);
                assert(self.entries@[w].session_id == k);
                assert(seq_as_map(self.entries@)[k] == self.entries@[w]);
                if k == g.session_id {
                    assert(w == i);
                } else {
                    assert(w != i);
                    assert(olds[w] == self.entries@[w]);
                    assert(seq_as_map(olds)[olds[w].session_id] == olds[w]);
                }
            }
            assert(seq_as_map(self.entries@) =~= seq_as_map(olds).insert(g.session_id, g));
        }
    }

    /// Apply a forward-only status update.  Refused when the record is
    /// missing or the update would not move forward; nothing else changes.
    pub fn transition(&mut self, session_id: u64, new_status: GameStatus) -> (r: Result<
        (),
        RegistryError,
    >)
        requires
            old(self).wf(),
        ensures
            final(self).wf(),
            final(self).next_session_id() == old(self).next_session_id(),
            r is Ok <==> old(self)@.contains_key(session_id) && can_advance(
                old(self)@[session_id].status,
                new_status,
            ),
            r is Ok ==> final(self)@ == old(self)@.insert(
                session_id,
                PendingGame { status: new_status, ..old(self)@[session_id] },
            ),
            r is Ok ==> final(self).count() == old(self).count(),
            r == Err::<(), RegistryError>(RegistryError::NotFound) <==> !old(
                self,
            )@.contains_key(session_id),
            r is Err ==> *final(self) == *old(self),
    {
        proof {
            lemma_map_props(self.entries@);
        }
        let i = match self.find_index(session_id) {
            Some(i) => i,
            None => {
                return Err(RegistryError::NotFound);
            },
        };
        if !can_advance_to(&self.entries[i].status, &new_status) {
            return Err(RegistryError::IllegalTransition);
        }
        let updated = PendingGame {
            session_id: self.entries[i].session_id,
            vrf_request_id: self.entries[i].vrf_request_id,
            vrf_block_number: self.entries[i].vrf_block_number,
            num_players: self.entries[i].num_players,
            cards_per_player: self.entries[i].cards_per_player,
            requested_at: self.entries[i].requested_at,
            status: new_status,
        };
        self.replace_at(i, updated);
        Ok(())
    }

    /// Record the oracle request bound to a session and move it from
    /// `Requesting` to `WaitingForVRF`.
    pub fn set_vrf_request(&mut self, session_id: u64, request_id: u64, block_number: u64) -> (r:
        Result<(), RegistryError>)
        requires
            old(self).wf(),
        ensures
            final(self).wf(),
            final(self).next_session_id() == old(self).next_session_id(),
            r is Ok <==> old(self)@.contains_key(session_id) && old(
                self,
            )@[session_id].status is Requesting,
            r is Ok ==> final(self)@ == old(self)@.insert(
                session_id,
                PendingGame {
                    vrf_request_id: request_id,
                    vrf_block_number: block_number,
                    status: GameStatus::WaitingForVRF,
                    ..old(self)@[session_id]
                },
            ),
            r is Ok ==> final(self).count() == old(self).count(),
            r == Err::<(), RegistryError>(RegistryError::NotFound) <==> !old(
                self,
            )@.contains_key(session_id),
            r is Err ==> *final(self) == *old(self),
    {
        proof {
            lemma_map_props(self.entries@);
        }
        let i = match self.find_index(session_id) {
            Some(i) => i,
            None => {
                return Err(RegistryError::NotFound);
            },
        };
        let requesting = match &self.entries[i].status {
            GameStatus::Requesting => true,
            _ => false,
        };
        if !requesting {
            return Err(RegistryError::IllegalTransition);
        }
        let updated = PendingGame {
            session_id: self.entries[i].session_id,
            vrf_request_id: request_id,
            vrf_block_number: block_number,
            num_players: self.entries[i].num_players,
            cards_per_player: self.entries[i].cards_per_player,
            requested_at: self.entries[i].requested_at,
            status: GameStatus::WaitingForVRF,
        };
        self.replace_at(i, updated);
        Ok(())
    }
}

/// A record is due for purging: it has not reached a terminal status and its
/// retention window has fully elapsed.
pub open spec fn session_expired(g: PendingGame, now: u64, ttl: u64) -> bool {
    !is_terminal(g.status) && g.requested_at + ttl <= now
}

/// The records a sweep at `now` with window `ttl` retains.
spec fn keep_pred(now: u64, ttl: u64) -> spec_fn(PendingGame) -> bool {
    |g: PendingGame| !session_expired(g, now, ttl)
}

/// Filtering keeps the record order, so strictly increasing ids stay strictly
/// increasing, and every retained record comes from the unfiltered list.
proof fn lemma_filter_retains_sorted(s: Seq<PendingGame>, pred: spec_fn(PendingGame) -> bool)
    requires
        ids_sorted(s),
    ensures
        ids_sorted(s.filter(pred)),
        forall|a: int|
            0 <= a < s.filter(pred).len() ==> s.contains(#[trigger] s.filter(pred)[a]),
    decreases s.len(),
{
    reveal(Seq::filter);
    if s.len() == 0 {
    } else {
        let sub = s.drop_last();
        let last = s.last();
        lemma_filter_retains_sorted(sub, pred);
        let fsub = sub.filter(pred);
        assert forall|a: int| 0 <= a < fsub.len() implies s.contains(#[trigger] fsub[a]) by {
            assert(sub.contains(fsub[a]));
            let j = choose|j: int| 0 <= j < sub.len() && sub[j] == fsub[a];
            assert(s[j] == fsub[a]);
        }
        if pred(last) {
            let f = s.filter(pred);
            assert(f == fsub.push(last));
            assert forall|a: int| 0 <= a < fsub.len() implies (#[trigger] fsub[a]).session_id
                < last.session_id by {
                assert(sub.contains(fsub[a]));
                let j = choose|j: int| 0 <= j < sub.len() && sub[j] == fsub[a];
                assert(s[j] == fsub[a]);
                assert(s[j].session_id < s[s.len() - 1].session_id);
            }
            assert forall|x: int, y: int| 0 <= x < y < f.len() implies (#[trigger] f[x]).session_id
                < (#[trigger] f[y]).session_id by {
                if y < fsub.len() {
                    assert(f[x] == fsub[x] && f[y] == fsub[y]);
                } else {
                    assert(f[x] == fsub[x] && f[y] == last);
                }
            }
            assert(s.contains(last)) by {
                assert(s[s.len() - 1] == last);
            }
        }
    }
}

proof fn lemma_sweep_final(kept: Seq<PendingGame>, orig: Seq<PendingGame>, now: u64, ttl: u64)
    requires
        kept == orig.filter(keep_pred(now, ttl)),
        ids_sorted(orig),
    ensures
        ids_sorted(kept),
        forall|id: u64| #[trigger]
            seq_as_map(kept).contains_key(id) <==> (seq_as_map(orig).contains_key(id)
                && !session_expired(seq_as_map(orig)[id], now, ttl)),
        forall|id: u64| #[trigger]
            seq_as_map(kept).contains_key(id) ==> seq_as_map(kept)[id] == seq_as_map(orig)[id],
{
    broadcast use vstd::seq_lib::group_filter_ensures;

    let pred = keep_pred(now, ttl);
    lemma_filter_retains_sorted(orig, pred);
    lemma_map_props(orig);
    lemma_map_props(kept);
    assert forall|id: u64| #[trigger]
        seq_as_map(kept).contains_key(id) implies (seq_as_map(orig).contains_key(id)
        && !session_expired(seq_as_map(orig)[id], now, ttl) && seq_as_map(kept)[id] == seq_as_map(
        orig,
    )[id]) by {
        let a = seq_id_index(kept, id);
        assert(seq_as_map(kept)[kept[a].session_id] == kept[a]);
        assert(pred(orig.filter(pred)[a]));
        assert(orig.contains(kept[a]));
        let b = choose|b: int| 0 <= b < orig.len() && orig[b] == kept[a];
        assert(seq_has_id(orig, id));
        assert(seq_as_map(orig)[orig[b].session_id] == orig[b]);
    }
    assert forall|id: u64|
        seq_as_map(orig).contains_key(id) && !session_expired(
            seq_as_map(orig)[id],
            now,
            ttl,
        ) implies #[trigger] seq_as_map(kept).contains_key(id) by {
        let b = seq_id_index(orig, id);
        assert(seq_as_map(orig)[orig[b].session_id] == orig[b]);
        assert(pred(orig[b]));
        assert(orig.filter(pred).contains(orig[b]));
        let a = choose|a: int| 0 <= a < kept.len() && kept[a] == orig[b];
        assert(kept[a].session_id == id);
    }
}

impl SessionRegistry {
    fn expired_now(g: &PendingGame, now: u64, ttl: u64) -> (r: bool)
        ensures
            r == session_expired(*g, now, ttl),
    {
        if g.status.terminal() {
            return false;
        }
        match g.requested_at.checked_add(ttl) {
            Some(t) => t <= now,
            None => false,
        }
    }

    /// Remove every non-terminal record whose retention window has elapsed;
    /// everything else stays unchanged.  Returns how many were removed.
    #[verifier::rlimit(50)]
    pub fn sweep(&mut self, now: u64, ttl: u64) -> (removed: usize)
        requires
            old(self).wf(),
        ensures
            final(self).wf(),
            final(self).next_session_id() == old(self).next_session_id(),
            forall|id: u64| #[trigger]
                final(self)@.contains_key(id) <==> (old(self)@.contains_key(id)
                    && !session_expired(old(self)@[id], now, ttl)),
            forall|id: u64| #[trigger]
                final(self)@.contains_key(id) ==> final(self)@[id] == old(self)@[id],
            old(self).count() == final(self).count() + removed,
    {
        let ghost orig = self.entries@;
        let n0 = self.entries.len();
        proof {
            assert(orig.len() == n0 as int);
        }
        let mut kept: Vec<PendingGame> = Vec::new();
        let mut removed: usize = 0;
        let mut i: usize = 0;
        while self.entries.len() > 0
            invariant
                self.next_id == old(self).next_id,
                ids_sorted(orig),
                forall|b: int| 0 <= b < orig.len() ==> (#[trigger] orig[b]).session_id
                    < self.next_id,
                orig.len() <= usize::MAX,
                i <= orig.len(),
                removed <= i,
                self.entries@ == orig.subrange(i as int, orig.len() as int),
                kept@.len() + removed == i as int,
                kept@ == orig.subrange(0, i as int).filter(keep_pred(now, ttl)),
            decreases self.entries@.len(),
        {
            let g = self.entries.remove(0);
            proof {
                assert(i < orig.len());
                assert(g == orig[i as int]);
                assert(self.entries@ =~= orig.subrange(i as int + 1, orig.len() as int));
            }
            let expired = Self::expired_now(&g, now, ttl);
            proof {
                reveal(Seq::filter);
                let pred = keep_pred(now, ttl);
                let pre = orig.subrange(0, i as int);
                let pre1 = orig.subrange(0, i as int + 1);
                assert(pre1.drop_last() =~= pre);
                assert(pre1.last() == orig[i as int]);
                assert(pre1.filter(pred) == if pred(orig[i as int]) {
                    pre.filter(pred).push(orig[i as int])
                } else {
                    pre.filter(pred)
                });
            }
            if expired {
                removed += 1;
            } else {
                kept.push(g);
            }
            i += 1;
        }
        self.entries = kept;
        proof {
            assert(orig.subrange(0, orig.len() as int) =~= orig);
            lemma_sweep_final(self.entries@, orig, now, ttl);
            broadcast use vstd::seq_lib::group_filter_ensures;

            assert forall|b: int| 0 <= b < self.entries@.len() implies (
            #[trigger] self.entries@[b]).session_id < self.next_id by {
                lemma_filter_retains_sorted(orig, keep_pred(now, ttl));
                assert(orig.contains(self.entries@[b]));
                let w = choose|w: int| 0 <= w < orig.len() && orig[w] == self.entries@[b];
            }
        }
        removed
    }
}

} // verus!

