//! The oracle randomness protocol: one retrieval attempt as an event-driven
//! machine.  The attempt first checks historical logs for a fulfillment that
//! arrived before the subscription existed, then races a live subscription
//! against a bounded fixed-interval poll, under one overall deadline.  The
//! caller performs the queries and feeds every outcome back as an event.

use vstd::prelude::*;

verus! {

/// A randomness request acknowledged by the oracle: its id and the block it
/// was submitted at.
#[derive(Debug, Clone, Copy, PartialEq, Eq, Structural)]
pub struct VrfRequest {
    pub request_id: u64,
    pub block_number: u64,
}

/// A fulfillment event read from the oracle's log.
#[derive(Debug, Clone, Copy, PartialEq, Eq)]
pub struct LogEntry {
    pub request_id: u64,
    pub random_word: [u8; 32],
}

/// The seed a finished game was dealt from, and the request that produced it.
#[derive(Debug, Clone, Copy, PartialEq, Eq)]
pub struct BlockchainSeed {
    pub value: [u8; 32],
    pub request_id: u64,
}

impl Default for BlockchainSeed {
    /// The all-zero seed with request id zero.
    fn default() -> (r: BlockchainSeed)
        ensures
            is_unfulfilled_word(r.value@),
            r.request_id == 0,
    {
        BlockchainSeed { value: [0u8; 32], request_id: 0 }
    }
}

/// The oracle's reserved "not yet answered" word: all bytes zero.  It is
/// never returned as a real random value.
pub open spec fn is_unfulfilled_word(w: Seq<u8>) -> bool {
    forall|i: int| 0 <= i < w.len() ==> w[i] == 0
}

/// Whether a word is the sentinel "not yet answered" value.
pub fn is_sentinel_word(w: &[u8; 32]) -> (r: bool)
    ensures
        r == is_unfulfilled_word(w@),
{
    let mut i: usize = 0;
    while i < 32
        invariant
            i <= 32,
            forall|k: int| 0 <= k < i as int ==> w@[k] == 0,
        decreases 32 - i,
    {
        if w[i] != 0 {
            return false;
        }
        i += 1;
    }
    true
}

/// Every byte of the word is at its maximum.
pub open spec fn all_bytes_max(s: Seq<u8>) -> bool {
    forall|i: int| 0 <= i < s.len() ==> s[i] == 255
}

/// The big-endian successor of a word: one added to it, wrapping at the
/// word's width.
pub open spec fn inc_word_spec(s: Seq<u8>) -> Seq<u8> {
    if all_bytes_max(s) {
        Seq::new(s.len(), |i: int| 0u8)
    } else {
        let p = choose|p: int|
            0 <= p < s.len() && s[p] != 255 && (forall|q: int| p < q < s.len() ==> s[q] == 255);
        Seq::new(
            s.len(),
            |i: int|
                if i < p {
                    s[i]
                } else if i == p {
                    (s[i] + 1) as u8
                } else {
                    0u8
                },
        )
    }
}

/// The big-endian successor of a 32-byte word.
pub fn increment_word(w: &[u8; 32]) -> (r: [u8; 32])
    ensures
        r@ == inc_word_spec(w@),
{
    broadcast use vstd::array::group_array_axioms;

    let mut out: [u8; 32] = [0u8; 32];
    let mut found: bool = false;
    let mut pos: usize = 0;
    let mut i: usize = 0;
    while i < 32
        invariant
            i <= 32,
            !found ==> forall|k: int| 0 <= k < i as int ==> w@[k] == 255,
            found ==> pos < i && w@[pos as int] != 255 && (forall|q: int|
                pos < q < i as int ==> w@[q] == 255),
        decreases 32 - i,
    {
        if w[i] != 255 {
            found = true;
            pos = i;
        }
        i += 1;
    }
    if !found {
        proof {
            assert(all_bytes_max(w@));
            assert(out@ =~= inc_word_spec(w@));
        }
        return out;
    }
    let mut j: usize = 0;
    while j < pos
        invariant
            j <= pos,
            pos < 32,
            out@.len() == 32,
            forall|k: int| 0 <= k < j as int ==> out@[k] == w@[k],
            forall|k: int| j as int <= k < 32 ==> out@[k] == 0,
        decreases pos - j,
    {
        out[j] = w[j];
        j += 1;
    }
    out[pos] = w[pos] + 1;
    proof {
        assert(!all_bytes_max(w@));
        let p = choose|p: int|
            0 <= p < w@.len() && w@[p] != 255 && (forall|q: int| p < q < w@.len() ==> w@[q] == 255);
        assert(0 <= pos < w@.len() && w@[pos as int] != 255 && (forall|q: int|
            pos < q < w@.len() ==> w@[q] == 255));
        if p < pos {
            assert(w@[pos as int] == 255);
        }
        if p > pos as int {
            assert(w@[p] == 255);
        }
        assert(p == pos as int);
        assert(out@ =~= inc_word_spec(w@));
    }
    out
}

/// A log entry answers the request: it carries the request id and a word
/// other than the sentinel.
pub open spec fn log_matches(e: LogEntry, request_id: u64) -> bool {
    e.request_id == request_id && !is_unfulfilled_word(e.random_word@)
}

/// The word of the first log entry answering the request, if any.
pub open spec fn spec_find_fulfillment(logs: Seq<LogEntry>, request_id: u64) -> Option<[u8; 32]>
    decreases logs.len(),
{
    if logs.len() == 0 {
        None
    } else if log_matches(logs[0], request_id) {
        Some(logs[0].random_word)
    } else {
        spec_find_fulfillment(logs.drop_first(), request_id)
    }
}

proof fn lemma_find_fulfillment_step(logs: Seq<LogEntry>, request_id: u64, i: int)
    requires
        0 <= i < logs.len(),
        !log_matches(logs[i], request_id),
    ensures
        spec_find_fulfillment(logs.skip(i), request_id) == spec_find_fulfillment(
            logs.skip(i + 1),
            request_id,
        ),
{
    assert(logs.skip(i).drop_first() =~= logs.skip(i + 1));
    assert(logs.skip(i)[0] == logs[i]);
}

/// Scan logs for the first entry answering the request.
pub fn find_fulfillment(logs: &Vec<LogEntry>, request_id: u64) -> (r: Option<[u8; 32]>)
    ensures
        r == spec_find_fulfillment(logs@, request_id),
{
    let n = logs.len();
    let mut i: usize = 0;
    proof {
        assert(logs@.skip(0) =~= logs@);
    }
    while i < n
        invariant
            i <= n,
            n == logs@.len(),
            spec_find_fulfillment(logs@, request_id) == spec_find_fulfillment(
                logs@.skip(i as int),
                request_id,
            ),
        decreases n - i,
    {
        let e = &logs[i];
        if e.request_id == request_id && !is_sentinel_word(&e.random_word) {
            proof {
                assert(logs@.skip(i as int)[0] == logs@[i as int]);
            }
            return Some(e.random_word);
        }
        proof {
            if logs@[i as int].request_id == request_id {
                assert(is_unfulfilled_word(logs@[i as int].random_word@));
            }
            lemma_find_fulfillment_step(logs@, request_id, i as int);
        }
        i += 1;
    }
    proof {
        assert(logs@.skip(n as int) =~= Seq::<LogEntry>::empty());
    }
    None
}

/// Error from one retrieval attempt.
#[derive(Debug, Clone, PartialEq)]
pub enum VrfError {
    /// Submitting the randomness request failed.
    OracleUnavailable(String),
    /// No randomness arrived within the attempt's window.
    FulfillmentTimeout,
}

/// Where a retrieval attempt stands.
#[derive(Debug, Clone, Copy, PartialEq, Eq)]
pub enum FulfillmentPhase {
    /// Querying historical logs for a fulfillment delivered before the
    /// subscription existed.
    CheckingHistory,
    /// Racing the live subscription against the bounded poll.
    Waiting,
    /// This word arrived; the attempt is over.
    Resolved([u8; 32]),
    /// The attempt ended without a word.
    TimedOut,
}

/// What the caller feeds the attempt: the outcome of the work it was asked
/// to perform, or the overall deadline.
#[derive(Debug, Clone, PartialEq)]
pub enum FulfillmentEvent {
    /// The historical log query returned these entries.
    HistoryLogs(Vec<LogEntry>),
    /// The historical log query failed.
    HistoryUnavailable,
    /// The live subscription delivered an entry.
    SubscriptionLog(LogEntry),
    /// The live subscription dropped or erred.
    SubscriptionFailed,
    /// A poll of the oracle's value query returned this word.
    PollValue([u8; 32]),
    /// A poll of the oracle's value query failed.
    PollFailed,
    /// The attempt's overall deadline elapsed.
    DeadlineExpired,
}

/// What the caller must do next.
#[derive(Debug, PartialEq)]
pub enum FulfillmentAction {
    /// Query historical logs from `from_block`, filtered by the request id.
    QueryHistory { request_id: u64, from_block: u64 },
    /// Open the live subscription and issue the first poll.
    StartWaiters { request_id: u64, from_block: u64 },
    /// Issue one more poll after the poll interval.
    Poll { request_id: u64 },
    /// Keep waiting on whatever waiters are still running.
    KeepWaiting,
    /// The attempt is over with this outcome.
    Complete(Result<[u8; 32], VrfError>),
}

/// One attempt to retrieve the random word bound to a request.
pub struct FulfillmentAttempt {
    request_id: u64,
    from_block: u64,
    max_poll_attempts: u32,
    polls_made: u32,
    subscription_failed: bool,
    phase: FulfillmentPhase,
}

impl FulfillmentAttempt {
    /// The request this attempt retrieves.
    pub closed spec fn request_id(&self) -> u64 {
        self.request_id
    }

    /// The block the request was submitted at.
    pub closed spec fn from_block(&self) -> u64 {
        self.from_block
    }

    /// How many polls the attempt may consume in all.
    pub closed spec fn max_poll_attempts(&self) -> u32 {
        self.max_poll_attempts
    }

    /// How many poll outcomes the attempt has consumed.
    pub closed spec fn polls_made(&self) -> u32 {
        self.polls_made
    }

    /// Whether the live subscription has failed.
    pub closed spec fn subscription_failed(&self) -> bool {
        self.subscription_failed
    }

    /// Where the attempt stands.
    pub closed spec fn phase(&self) -> FulfillmentPhase {
        self.phase
    }

    /// The attempt consumes at most its poll budget, and a resolved word is
    /// never the sentinel.
    pub closed spec fn wf(&self) -> bool {
        &&& self.polls_made <= self.max_poll_attempts
        &&& (self.phase matches FulfillmentPhase::Resolved(w) ==> !is_unfulfilled_word(w@))
    }

    /// The identity of the attempt: what never changes across events.
    pub open spec fn same_attempt(pre: &FulfillmentAttempt, post: &FulfillmentAttempt) -> bool {
        &&& post.request_id() == pre.request_id()
        &&& post.from_block() == pre.from_block()
        &&& post.max_poll_attempts() == pre.max_poll_attempts()
    }

    /// Begin an attempt: the first step is the missed-event check, a query of
    /// historical logs from the request's block.
    pub fn new(request_id: u64, from_block: u64, max_poll_attempts: u32) -> (r: (
        FulfillmentAttempt,
        FulfillmentAction,
    ))
        ensures
            r.0.wf(),
            r.0.request_id() == request_id,
            r.0.from_block() == from_block,
            r.0.max_poll_attempts() == max_poll_attempts,
            r.0.polls_made() == 0,
            !r.0.subscription_failed(),
            r.0.phase() is CheckingHistory,
            r.1 == (FulfillmentAction::QueryHistory { request_id, from_block }),
    {
        let attempt = FulfillmentAttempt {
            request_id,
            from_block,
            max_poll_attempts,
            polls_made: 0,
            subscription_failed: false,
            phase: FulfillmentPhase::CheckingHistory,
        };
        (attempt, FulfillmentAction::QueryHistory { request_id, from_block })
    }

    /// Feed the attempt one event and learn what to do next.
    ///
    /// The missed-event check answers immediately when the logs already hold
    /// the fulfillment.  A failed history query is treated as absence.  A
    /// subscription failure is not fatal while polls remain.  The sentinel
    /// word is treated as "not yet answered", never returned.  The deadline
    /// ends the attempt with `FulfillmentTimeout`, as does exhausting the
    /// poll budget once the subscription is gone.
    pub fn on_event(&mut self, event: FulfillmentEvent) -> (a: FulfillmentAction)
        requires
            old(self).wf(),
        ensures
            final(self).wf(),
            Self::same_attempt(old(self), final(self)),
            // Only a consumed poll moves the poll count, and only a
            // subscription failure while waiting moves that flag.
            (!(old(self).phase() is Waiting && event_is_poll_miss(event)) ==> final(self).polls_made()
                == old(self).polls_made()),
            (!(old(self).phase() is Waiting && event is SubscriptionFailed) ==> final(self).subscription_failed()
                == old(self).subscription_failed()),
            // A completed attempt never hands out the sentinel.
            (a matches FulfillmentAction::Complete(res) ==> (res is Ok ==> !is_unfulfilled_word(
                res->Ok_0@,
            ))),
            // A poll is only requested while budget remains.
            (a matches FulfillmentAction::Poll { request_id } ==> request_id == old(
                self,
            ).request_id() && final(self).polls_made() < final(self).max_poll_attempts()),
            // Terminal phases only repeat their outcome.
            (old(self).phase() matches FulfillmentPhase::Resolved(w) ==> *final(self) == *old(self)
                && a == FulfillmentAction::Complete(Result::<[u8; 32], VrfError>::Ok(w))),
            (old(self).phase() is TimedOut ==> *final(self) == *old(self)
                && a == FulfillmentAction::Complete(
                Result::<[u8; 32], VrfError>::Err(VrfError::FulfillmentTimeout),
            )),
            // The deadline ends any active attempt.
            (!is_settled(old(self).phase()) && event is DeadlineExpired ==> final(self).phase() is TimedOut && a == FulfillmentAction::Complete(
                Result::<[u8; 32], VrfError>::Err(VrfError::FulfillmentTimeout),
            )),
            // The missed-event check: a fulfillment already on the log is
            // returned at once, without engaging either waiter; otherwise
            // both waiters start.
            (old(self).phase() is CheckingHistory ==> (event
                matches FulfillmentEvent::HistoryLogs(logs)
                ==> match spec_find_fulfillment(logs@, old(self).request_id()) {
                Some(w) => final(self).phase() == FulfillmentPhase::Resolved(w) && a
                    == FulfillmentAction::Complete(Result::<[u8; 32], VrfError>::Ok(w)),
                None => final(self).phase() is Waiting && a == (FulfillmentAction::StartWaiters {
                    request_id: old(self).request_id(),
                    from_block: old(self).from_block(),
                }),
            })),
            (old(self).phase() is CheckingHistory && event is HistoryUnavailable ==> final(self).phase() is Waiting && a == (FulfillmentAction::StartWaiters {
                request_id: old(self).request_id(),
                from_block: old(self).from_block(),
            })),
            // A subscription delivery with the right id and a real word
            // resolves the attempt; anything else is ignored.
            (old(self).phase() is Waiting ==> (event
                matches FulfillmentEvent::SubscriptionLog(e) ==> if log_matches(
                e,
                old(self).request_id(),
            ) {
                final(self).phase() == FulfillmentPhase::Resolved(e.random_word) && a
                    == FulfillmentAction::Complete(Result::<[u8; 32], VrfError>::Ok(e.random_word))
            } else {
                *final(self) == *old(self) && a == FulfillmentAction::KeepWaiting
            })),
            // A subscription failure is not fatal: the poll goes on, and only
            // with the poll budget already exhausted is the attempt over.
            (old(self).phase() is Waiting && event is SubscriptionFailed ==> final(self).subscription_failed() && final(self).polls_made() == old(self).polls_made() && (if old(
                self,
            ).polls_made() < old(self).max_poll_attempts() {
                final(self).phase() is Waiting && a == FulfillmentAction::KeepWaiting
            } else {
                final(self).phase() is TimedOut && a == FulfillmentAction::Complete(
                    Result::<[u8; 32], VrfError>::Err(VrfError::FulfillmentTimeout),
                )
            })),
            // A poll that returns a real word resolves the attempt.
            (old(self).phase() is Waiting ==> (event matches FulfillmentEvent::PollValue(w)
                ==> (!is_unfulfilled_word(w@) ==> final(self).phase()
                    == FulfillmentPhase::Resolved(w) && a == FulfillmentAction::Complete(
                    Result::<[u8; 32], VrfError>::Ok(w),
                )))),
            // A sentinel answer or a failed poll consumes one poll: poll
            // again while budget remains, else wait on the subscription if it
            // is still up, else the attempt is over.
            (old(self).phase() is Waiting && event_is_poll_miss(event) ==> poll_missed(
                old(self),
                final(self),
                a,
            )),
            // Stale history answers while waiting change nothing.
            (old(self).phase() is Waiting && (event is HistoryUnavailable || event
                matches FulfillmentEvent::HistoryLogs(_)) ==> *final(self) == *old(self) && a
                == FulfillmentAction::KeepWaiting),
            // Waiter events before the waiters exist change nothing.
            (old(self).phase() is CheckingHistory && (event is SubscriptionFailed || event
                is PollFailed || event matches FulfillmentEvent::SubscriptionLog(_) || event
                matches FulfillmentEvent::PollValue(_)) ==> *final(self) == *old(self) && a
                == FulfillmentAction::KeepWaiting),
    {
        match &self.phase {
            FulfillmentPhase::Resolved(w) => {
                return FulfillmentAction::Complete(Ok(*w));
            },
            FulfillmentPhase::TimedOut => {
                return FulfillmentAction::Complete(Err(VrfError::FulfillmentTimeout));
            },
            _ => {},
        }
        match event {
            FulfillmentEvent::DeadlineExpired => {
                self.phase = FulfillmentPhase::TimedOut;
                FulfillmentAction::Complete(Err(VrfError::FulfillmentTimeout))
            },
            FulfillmentEvent::HistoryLogs(logs) => {
                match &self.phase {
                    FulfillmentPhase::CheckingHistory => {
                        match find_fulfillment(&logs, self.request_id) {
                            Some(w) => {
                                proof {
                                    lemma_spec_find_matches(logs@, self.request_id);
                                }
                                self.phase = FulfillmentPhase::Resolved(w);
                                FulfillmentAction::Complete(Ok(w))
                            },
                            None => {
                                self.phase = FulfillmentPhase::Waiting;
                                FulfillmentAction::StartWaiters {
                                    request_id: self.request_id,
                                    from_block: self.from_block,
                                }
                            },
                        }
                    },
                    _ => FulfillmentAction::KeepWaiting,
                }
            },
            FulfillmentEvent::HistoryUnavailable => {
                match &self.phase {
                    FulfillmentPhase::CheckingHistory => {
                        self.phase = FulfillmentPhase::Waiting;
                        FulfillmentAction::StartWaiters {
                            request_id: self.request_id,
                            from_block: self.from_block,
                        }
                    },
                    _ => FulfillmentAction::KeepWaiting,
                }
            },
            FulfillmentEvent::SubscriptionLog(e) => {
                match &self.phase {
                    FulfillmentPhase::Waiting => {
                        if e.request_id == self.request_id && !is_sentinel_word(&e.random_word) {
                            self.phase = FulfillmentPhase::Resolved(e.random_word);
                            FulfillmentAction::Complete(Ok(e.random_word))
                        } else {
                            FulfillmentAction::KeepWaiting
                        }
                    },
                    _ => FulfillmentAction::KeepWaiting,
                }
            },
            FulfillmentEvent::SubscriptionFailed => {
                match &self.phase {
                    FulfillmentPhase::Waiting => {
                        self.subscription_failed = true;
                        if self.polls_made < self.max_poll_attempts {
                            FulfillmentAction::KeepWaiting
                        } else {
                            self.phase = FulfillmentPhase::TimedOut;
                            FulfillmentAction::Complete(Err(VrfError::FulfillmentTimeout))
                        }
                    },
                    _ => FulfillmentAction::KeepWaiting,
                }
            },
            FulfillmentEvent::PollValue(w) => {
                match &self.phase {
                    FulfillmentPhase::Waiting => {
                        if !is_sentinel_word(&w) {
                            self.phase = FulfillmentPhase::Resolved(w);
                            FulfillmentAction::Complete(Ok(w))
                        } else {
                            self.poll_miss()
                        }
                    },
                    _ => FulfillmentAction::KeepWaiting,
                }
            },
            FulfillmentEvent::PollFailed => {
                match &self.phase {
                    FulfillmentPhase::Waiting => self.poll_miss(),
                    _ => FulfillmentAction::KeepWaiting,
                }
            },
        }
    }

    fn poll_miss(&mut self) -> (a: FulfillmentAction)
        requires
            old(self).wf(),
            old(self).phase is Waiting,
        ensures
            final(self).wf(),
            poll_missed(old(self), final(self), a),
            Self::same_attempt(old(self), final(self)),
            (a matches FulfillmentAction::Poll { request_id } ==> request_id == old(
                self,
            ).request_id() && final(self).polls_made() < final(self).max_poll_attempts()),
    {
        if self.polls_made < self.max_poll_attempts {
            self.polls_made = self.polls_made + 1;
        }
        if self.polls_made < self.max_poll_attempts {
            FulfillmentAction::Poll { request_id: self.request_id }
        } else if self.subscription_failed {
            self.phase = FulfillmentPhase::TimedOut;
            FulfillmentAction::Complete(Err(VrfError::FulfillmentTimeout))
        } else {
            FulfillmentAction::KeepWaiting
        }
    }
}

/// A phase in which the attempt is over.
pub open spec fn is_settled(p: FulfillmentPhase) -> bool {
    p is Resolved || p is TimedOut
}

/// A poll outcome that brings no answer: a failure, or the sentinel word.
pub open spec fn event_is_poll_miss(event: FulfillmentEvent) -> bool {
    match event {
        FulfillmentEvent::PollFailed => true,
        FulfillmentEvent::PollValue(w) => is_unfulfilled_word(w@),
        _ => false,
    }
}

/// What one consumed poll without an answer does: the poll count grows by one
/// up to the budget; while budget remains the poll is reissued; with the
/// budget exhausted the attempt keeps waiting on a live subscription and is
/// otherwise over.
pub open spec fn poll_missed(
    pre: &FulfillmentAttempt,
    post: &FulfillmentAttempt,
    a: FulfillmentAction,
) -> bool {
    &&& post.subscription_failed() == pre.subscription_failed()
    &&& post.polls_made() == if pre.polls_made() < pre.max_poll_attempts() {
        pre.polls_made() + 1
    } else {
        pre.polls_made() as int
    }
    &&& if post.polls_made() < pre.max_poll_attempts() {
        post.phase() is Waiting && a == (FulfillmentAction::Poll { request_id: pre.request_id() })
    } else if pre.subscription_failed() {
        post.phase() is TimedOut && a == FulfillmentAction::Complete(
            Result::<[u8; 32], VrfError>::Err(VrfError::FulfillmentTimeout),
        )
    } else {
        post.phase() is Waiting && a == FulfillmentAction::KeepWaiting
    }
}

/// A found fulfillment is never the sentinel.
proof fn lemma_spec_find_matches(logs: Seq<LogEntry>, request_id: u64)
    ensures
        spec_find_fulfillment(logs, request_id) matches Some(w) ==> !is_unfulfilled_word(w@),
    decreases logs.len(),
{
    if logs.len() > 0 && !log_matches(logs[0], request_id) {
        lemma_spec_find_matches(logs.drop_first(), request_id);
    }
}

} // verus!
