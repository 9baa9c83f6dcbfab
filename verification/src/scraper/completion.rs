//! Correlates Ack/Nack feedback with candidate source progress.

use crate::scraper::cursor::Cursor;
use vstd::prelude::*;

verus! {

/// A publication whose delivery is awaited, and the progress it would make.
pub struct DeliveryToken {
    /// The publication.
    pub publication_id: u64,
    /// The checkpoint revision it builds on.
    pub checkpoint_revision: u64,
    /// The position to commit once all is delivered.
    pub candidate_cursor: Cursor,
    /// How many batches were published.
    pub expected_batch_count: usize,
}

/// Feedback on a publication.
#[derive(Clone, Copy, Debug, PartialEq, Eq, Structural)]
pub enum Completion {
    /// A batch was accepted.
    Ack {
        /// Which one.
        batch_index: usize,
    },
    /// A batch was refused.
    Nack {
        /// Which one.
        batch_index: usize,
        /// Whether it may be accepted later.
        retryable: bool,
    },
    /// Nothing came in time.
    Timeout,
}

/// What feedback leads to.
pub enum CompletionDecision {
    /// More feedback is awaited.
    Pending,
    /// Everything was accepted: the candidate becomes the committed position.
    Commit(DeliveryToken),
    /// Reading starts again from the committed position.
    ReplayFromCommitted,
    /// The source has failed for good.
    FailPermanent,
}

/// Why a publication cannot be awaited.
#[derive(Clone, Copy, Debug, PartialEq, Eq, Structural)]
pub enum CompletionError {
    /// Another one is.
    CandidateAlreadyPending,
    /// It has no batches.
    InvalidBatchCount,
}

/// Awaits the delivery of one candidate at a time.
pub struct CompletionTracker {
    pending: Option<DeliveryToken>,
    accepted: Vec<usize>,
}

/// What a tracker holds: the awaited publication and the batches accepted so far.
pub struct TrackerModel {
    pub pending: Option<DeliveryToken>,
    pub accepted: Set<nat>,
}

impl View for CompletionTracker {
    type V = TrackerModel;

    closed spec fn view(&self) -> TrackerModel {
        TrackerModel {
            pending: self.pending,
            accepted: Set::new(|n: nat| exists|i: int|
                0 <= i < self.accepted@.len() && #[trigger] self.accepted@[i] == n),
        }
    }
}

/// A tracker that awaits nothing.
pub open spec fn idle() -> TrackerModel {
    TrackerModel { pending: None, accepted: Set::empty() }
}

/// Why a publication cannot be awaited now, if it cannot.
pub open spec fn refusal(tracker: TrackerModel, token: DeliveryToken) -> Option<CompletionError> {
    if tracker.pending is Some {
        Some(CompletionError::CandidateAlreadyPending)
    } else if token.expected_batch_count == 0 {
        Some(CompletionError::InvalidBatchCount)
    } else {
        None
    }
}

/// Whether every batch of a publication was accepted.
pub open spec fn all_accepted(accepted: Set<nat>, count: nat) -> bool {
    forall|n: nat| n < count ==> #[trigger] accepted.contains(n)
}

/// Whether feedback speaks of a batch that the awaited publication has.
pub open spec fn speaks_of(tracker: TrackerModel, batch_index: usize) -> bool {
    tracker.pending matches Some(token) && batch_index < token.expected_batch_count
}

/// The tracker and the decision after feedback. Only an acceptance of the last missing batch
/// commits. A refusal or a timeout never does. Feedback on nothing awaited changes nothing.
pub open spec fn decided(tracker: TrackerModel, completion: Completion) -> (
    TrackerModel,
    CompletionDecision,
) {
    match completion {
        Completion::Ack { batch_index } => if !speaks_of(tracker, batch_index) {
            (tracker, CompletionDecision::Pending)
        } else {
            let accepted = tracker.accepted.insert(batch_index as nat);
            let token = tracker.pending->0;
            if all_accepted(accepted, token.expected_batch_count as nat) {
                (idle(), CompletionDecision::Commit(token))
            } else {
                (TrackerModel { accepted, ..tracker }, CompletionDecision::Pending)
            }
        },
        Completion::Nack { batch_index, retryable } => if !speaks_of(tracker, batch_index) {
            (tracker, CompletionDecision::Pending)
        } else if retryable {
            (idle(), CompletionDecision::ReplayFromCommitted)
        } else {
            (idle(), CompletionDecision::FailPermanent)
        },
        Completion::Timeout => if tracker.pending is None {
            (tracker, CompletionDecision::Pending)
        } else {
            (idle(), CompletionDecision::ReplayFromCommitted)
        },
    }
}

/// The invariant of a tracker: accepted batches are the awaited publication's own, and not
/// all of them.
pub open spec fn valid(tracker: TrackerModel) -> bool {
    match tracker.pending {
        None => tracker.accepted == Set::<nat>::empty(),
        Some(token) => {
            &&& token.expected_batch_count > 0
            &&& !all_accepted(tracker.accepted, token.expected_batch_count as nat)
            &&& forall|n: nat| #[trigger]
                tracker.accepted.contains(n) ==> n < token.expected_batch_count
        },
    }
}

impl CompletionTracker {
    /// A tracker that awaits nothing.
    pub fn new() -> (r: Self)
        ensures
            r@ == idle(),
            valid(r@),
    {
        let r = CompletionTracker { pending: None, accepted: Vec::new() };
        assert(r@.accepted =~= Set::<nat>::empty());
        r
    }

    /// Awaits the delivery of a publication, one at a time.
    pub fn begin(&mut self, token: DeliveryToken) -> (r: Result<(), CompletionError>)
        requires
            valid(old(self)@),
        ensures
            valid(final(self)@),
            match r {
                Ok(()) => refusal(old(self)@, token) is None && final(self)@ == (TrackerModel {
                    pending: Some(token),
                    accepted: Set::empty(),
                }),
                Err(error) => refusal(old(self)@, token) == Some(error) && final(self)@ == old(
                    self,
                )@,
            },
    {
        if self.pending.is_some() {
            return Err(CompletionError::CandidateAlreadyPending);
        }
        if token.expected_batch_count == 0 {
            return Err(CompletionError::InvalidBatchCount);
        }
        self.pending = Some(token);
        self.accepted = Vec::new();
        assert(self@.accepted =~= Set::<nat>::empty());
        assert(!self@.accepted.contains(0nat));
        Ok(())
    }

    /// Takes in feedback and decides what it leads to.
    pub fn apply(&mut self, completion: Completion) -> (r: CompletionDecision)
        requires
            valid(old(self)@),
        ensures
            valid(final(self)@),
            (final(self)@, r) == decided(old(self)@, completion),
    {
        let ghost before = self@;
        let count: usize = match &self.pending {
            None => {
                return CompletionDecision::Pending;
            },
            Some(token) => token.expected_batch_count,
        };
        match completion {
            Completion::Ack { batch_index } => {
                if batch_index >= count {
                    return CompletionDecision::Pending;
                }
                if !self.was_accepted(batch_index) {
                    let ghost earlier = self.accepted@;
                    self.accepted.push(batch_index);
                    assert(self@.accepted =~= before.accepted.insert(batch_index as nat)) by {
                        assert forall|n: nat|
                            self@.accepted.contains(n) == before.accepted.insert(
                                batch_index as nat,
                            ).contains(n) by {
                            if n == batch_index {
                                assert(self.accepted@[earlier.len() as int] == n);
                            }
                            if before.accepted.contains(n) {
                                let i = choose|i: int|
                                    0 <= i < earlier.len() && #[trigger] earlier[i] == n;
                                assert(self.accepted@[i] == n);
                            }
                        }
                    }
                } else {
                    assert(before.accepted =~= before.accepted.insert(batch_index as nat));
                }
                if self.has_all(count) {
                    match self.pending.take() {
                        Some(token) => {
                            self.accepted = Vec::new();
                            assert(self@.accepted =~= Set::<nat>::empty());
                            CompletionDecision::Commit(token)
                        },
                        None => CompletionDecision::Pending,
                    }
                } else {
                    CompletionDecision::Pending
                }
            },
            Completion::Nack { batch_index, retryable } => {
                if batch_index >= count {
                    return CompletionDecision::Pending;
                }
                self.forget();
                if retryable {
                    CompletionDecision::ReplayFromCommitted
                } else {
                    CompletionDecision::FailPermanent
                }
            },
            Completion::Timeout => {
                self.forget();
                CompletionDecision::ReplayFromCommitted
            },
        }
    }

    fn forget(&mut self)
        ensures
            final(self)@ == idle(),
    {
        self.pending = None;
        self.accepted = Vec::new();
        assert(self@.accepted =~= Set::<nat>::empty());
    }

    fn was_accepted(&self, batch_index: usize) -> (found: bool)
        ensures
            found == self@.accepted.contains(batch_index as nat),
    {
        let mut i: usize = 0;
        while i < self.accepted.len()
            invariant
                i <= self.accepted@.len(),
                forall|j: int| 0 <= j < i ==> self.accepted@[j] != batch_index,
            decreases self.accepted.len() - i,
        {
            if self.accepted[i] == batch_index {
                assert(self.accepted@[i as int] == batch_index as nat);
                return true;
            }
            i += 1;
        }
        false
    }

    fn has_all(&self, count: usize) -> (found: bool)
        ensures
            found == all_accepted(self@.accepted, count as nat),
    {
        let mut n: usize = 0;
        while n < count
            invariant
                n <= count,
                forall|m: nat| m < n ==> #[trigger] self@.accepted.contains(m),
            decreases count - n,
        {
            if !self.was_accepted(n) {
                assert(!self@.accepted.contains(n as nat));
                return false;
            }
            n += 1;
        }
        true
    }
}

/// A position is committed only once every batch of its publication was accepted.
pub proof fn law_commit_needs_every_acceptance(tracker: TrackerModel, completion: Completion)
    requires
        valid(tracker),
    ensures
        decided(tracker, completion).1 matches CompletionDecision::Commit(token) ==> {
            &&& tracker.pending == Some(token)
            &&& completion matches Completion::Ack { batch_index } && all_accepted(
                tracker.accepted.insert(batch_index as nat),
                token.expected_batch_count as nat,
            )
        },
{
}

/// A refusal or a timeout never commits, and leaves the tracker free to start again.
pub proof fn law_failed_delivery_never_commits(tracker: TrackerModel, completion: Completion)
    requires
        valid(tracker),
        !(completion is Ack),
    ensures
        !(decided(tracker, completion).1 is Commit),
        !(decided(tracker, completion).1 is Pending) ==> decided(tracker, completion).0 == idle(),
{
}

/// Repeating an acceptance changes nothing.
pub proof fn law_repeated_acceptance_is_harmless(tracker: TrackerModel, batch_index: usize)
    requires
        valid(tracker),
        tracker.accepted.contains(batch_index as nat),
    ensures
        decided(tracker, Completion::Ack { batch_index }) == (tracker, CompletionDecision::Pending),
{
    assert(tracker.accepted.insert(batch_index as nat) =~= tracker.accepted);
}

/// A publication is awaited exactly when none is yet and it has batches.
pub proof fn law_one_publication_is_awaited_at_a_time(tracker: TrackerModel, token: DeliveryToken)
    ensures
        refusal(tracker, token) is None <==> tracker.pending is None && token.expected_batch_count
            >= 1,
        tracker.pending is Some ==> refusal(tracker, token) == Some(
            CompletionError::CandidateAlreadyPending,
        ),
        tracker.pending is None && token.expected_batch_count == 0 ==> refusal(tracker, token)
            == Some(CompletionError::InvalidBatchCount),
{
}

/// An acceptance commits exactly when it was the last that was missing: every other batch of
/// the awaited publication was accepted before. What is committed is that publication, and
/// then nothing is awaited any more. Any other acceptance is remembered, where it speaks of a
/// batch of the publication, and forgotten where it does not.
pub proof fn law_acceptances_commit_when_complete(tracker: TrackerModel, batch_index: usize)
    requires
        tracker.pending is Some,
    ensures
        ({
            let token = tracker.pending->0;
            let (after, decision) = decided(tracker, Completion::Ack { batch_index });
            let known = batch_index < token.expected_batch_count;
            let complete = known && forall|n: nat|
                n < token.expected_batch_count && n != batch_index ==> #[trigger] tracker.accepted.contains(
                    n,
                );
            &&& complete ==> decision == CompletionDecision::Commit(token) && after.pending is None
                && after.accepted == Set::<nat>::empty()
            &&& !complete ==> decision is Pending && after.pending == tracker.pending
            &&& known && !complete ==> forall|n: nat| #[trigger]
                after.accepted.contains(n) <==> tracker.accepted.contains(n) || n == batch_index
            &&& !known ==> after.accepted == tracker.accepted
        }),
{
    let token = tracker.pending->0;
    let accepted = tracker.accepted.insert(batch_index as nat);
    let complete = batch_index < token.expected_batch_count && forall|n: nat|
        n < token.expected_batch_count && n != batch_index ==> #[trigger] tracker.accepted.contains(n);
    if complete {
        assert forall|n: nat| n < token.expected_batch_count implies #[trigger] accepted.contains(n) by {
            if n != batch_index {
                assert(tracker.accepted.contains(n));
            }
        }
    }
    if batch_index < token.expected_batch_count && all_accepted(
        accepted,
        token.expected_batch_count as nat,
    ) {
        assert forall|n: nat|
            n < token.expected_batch_count && n != batch_index implies #[trigger] tracker.accepted.contains(
            n,
        ) by {
            assert(accepted.contains(n));
        }
    }
}

/// A refusal of an awaited batch, or the end of the wait, leaves nothing awaited: reading
/// starts again, unless the refusal is final. Feedback on nothing that is awaited changes
/// nothing.
pub proof fn law_refusals_start_again_or_fail(
    tracker: TrackerModel,
    batch_index: usize,
    retryable: bool,
)
    ensures
        ({
            let (after, decision) = decided(tracker, Completion::Nack { batch_index, retryable });
            let known = tracker.pending is Some && batch_index
                < tracker.pending->0.expected_batch_count;
            &&& known ==> after.pending is None && (decision is ReplayFromCommitted <==> retryable)
                && (decision is FailPermanent <==> !retryable)
            &&& !known ==> after == tracker && decision is Pending
        }),
        ({
            let (after, decision) = decided(tracker, Completion::Timeout);
            &&& tracker.pending is Some ==> after.pending is None && decision is ReplayFromCommitted
            &&& tracker.pending is None ==> after == tracker && decision is Pending
        }),
{
}

} // verus!
