//! Host-neutral polling state machine wrapped by each vendor receiver.

use crate::scraper::checkpoint::CheckpointStore;
use crate::scraper::completion;
use crate::scraper::completion::{
    Completion, CompletionDecision, CompletionTracker, DeliveryToken, TrackerModel,
};
use crate::scraper::config::ScraperConfig;
use crate::scraper::cursor;
use crate::scraper::cursor::{validate_strictly_after, Cursor, CursorField};
use crate::scraper::driver::DatabaseScraper;
use vstd::prelude::*;

verus! {

/// One source, its driver, its checkpoints and what it awaits.
pub struct DatabaseReceiver<D: DatabaseScraper, S: CheckpointStore> {
    /// The source's settings.
    pub config: ScraperConfig,
    /// Reads the source.
    pub driver: D,
    /// Keeps its progress.
    pub checkpoint_store: S,
    /// Where it stands and what it awaits.
    pub cycle: PollCycle,
}

impl<D: DatabaseScraper, S: CheckpointStore> DatabaseReceiver<D, S> {
    /// Moves the source's cycle on.
    pub fn run_one_cycle(&mut self, event: PollEvent) -> (step: PollStep)
        requires
            cycle_valid(old(self).cycle@),
        ensures
            (final(self).cycle@, step) == stepped(old(self).cycle@, event),
            cycle_valid(final(self).cycle@),
            final(self).config == old(self).config,
            final(self).driver == old(self).driver,
            final(self).checkpoint_store == old(self).checkpoint_store,
    {
        self.cycle.advance(event)
    }
}

/// Where polling stands.
#[derive(Clone, Copy, Debug, PartialEq, Eq, Structural)]
pub enum PollState {
    Starting,
    Idle,
    Querying,
    AwaitingDelivery,
    Committing,
    BackingOff,
    Draining,
}

/// What one cycle came to.
#[derive(Clone, Copy, Debug, PartialEq, Eq, Structural)]
pub enum PollOutcome {
    NoRows,
    PublicationPending,
    CheckpointCommitted,
    RetryScheduled,
}

/// Why a cycle failed.
#[derive(Clone, Copy, Debug, PartialEq, Eq, Structural)]
pub enum PollError {
    Driver,
    Mapping,
    Completion,
    Checkpoint,
    ShutdownDeadline,
}

/// What happens to a source that is polled.
pub enum PollEvent {
    /// The committed checkpoint was loaded.
    CheckpointLoaded {
        /// The committed position; none before the first commit.
        committed: Option<Cursor>,
        /// The checkpoint's revision.
        revision: u64,
    },
    /// It could not be loaded.
    CheckpointUnavailable,
    /// The source may be polled.
    PollEligible,
    /// A page was read and published.
    PageRead {
        /// The position after its last row; none when it has no rows.
        candidate: Option<Cursor>,
        /// How many batches its rows were mapped to.
        batches: usize,
    },
    /// The driver failed.
    ScrapeFailed,
    /// A row could not be mapped.
    MappingFailed,
    /// Feedback on the publication.
    Delivery(Completion),
    /// The candidate was committed.
    CommitSucceeded,
    /// It was not.
    CommitFailed,
    /// The source is to be left.
    Drain,
}

/// What is to be done next.
#[derive(Clone, Copy, Debug, PartialEq, Eq, Structural)]
pub enum PollStep {
    /// Read one bounded page from the committed position on, map it and publish it.
    Scrape,
    /// Commit the candidate over a revision.
    Commit {
        /// The revision that the candidate builds on.
        expected_revision: u64,
    },
    /// The cycle came to this.
    Finished(PollOutcome),
    /// The cycle failed.
    Failed(PollError),
    /// Nothing.
    Ignore,
    /// Leave the source where it is.
    Stop,
}

/// The cycle of one source: at most one candidate at a time, kept until everything that was
/// read up to it has been delivered and its position has been stored.
pub struct PollCycle {
    committed: Option<Cursor>,
    revision: u64,
    completions: CompletionTracker,
    committing: Option<DeliveryToken>,
    publications: u64,
    state: PollState,
}

/// What a cycle holds.
pub struct CycleModel {
    /// The committed position.
    pub committed: Option<Seq<CursorField>>,
    /// The checkpoint's revision.
    pub revision: u64,
    /// The publication that is awaited.
    pub tracker: TrackerModel,
    /// The publication whose position is being stored.
    pub committing: Option<DeliveryToken>,
    /// How many publications there were.
    pub publications: u64,
    /// Where polling stands.
    pub state: PollState,
}

/// The fields of a position.
pub open spec fn fields_of(position: Option<Cursor>) -> Option<Seq<CursorField>> {
    match position {
        Some(cursor) => Some(cursor.fields@),
        None => None,
    }
}

impl View for PollCycle {
    type V = CycleModel;

    closed spec fn view(&self) -> CycleModel {
        CycleModel {
            committed: fields_of(self.committed),
            revision: self.revision,
            tracker: self.completions@,
            committing: self.committing,
            publications: self.publications,
            state: self.state,
        }
    }
}

/// Whether a publication's position may become the committed one.
pub open spec fn moves_on(committed: Option<Seq<CursorField>>, token: DeliveryToken) -> bool {
    cursor::order_failure(committed, token.candidate_cursor.fields@) is None
}

/// The invariant of a cycle: a publication is awaited or stored exactly in the states that
/// say so, and its position is after the committed one.
pub open spec fn cycle_valid(cycle: CycleModel) -> bool {
    &&& completion::valid(cycle.tracker)
    &&& cycle.tracker.pending is Some <==> cycle.state is AwaitingDelivery
    &&& cycle.committing is Some <==> cycle.state is Committing
    &&& cycle.tracker.pending matches Some(token) ==> moves_on(cycle.committed, token)
    &&& cycle.committing matches Some(token) ==> moves_on(cycle.committed, token)
}

/// The cycle with nothing awaited or stored, in another state.
pub open spec fn resting(cycle: CycleModel, state: PollState) -> CycleModel {
    CycleModel { tracker: completion::idle(), committing: None, state, ..cycle }
}

/// The publication of a page.
pub open spec fn publication(cycle: CycleModel, candidate: Cursor, batches: usize) -> DeliveryToken {
    DeliveryToken {
        publication_id: cycle.publications,
        checkpoint_revision: cycle.revision,
        candidate_cursor: candidate,
        expected_batch_count: batches,
    }
}

/// A cycle after a page was read. A page without rows ends the cycle; one whose position is
/// not usable, or whose rows were not mapped, fails it.
pub open spec fn after_page(cycle: CycleModel, candidate: Option<Cursor>, batches: usize) -> (
    CycleModel,
    PollStep,
) {
    match candidate {
        None => (resting(cycle, PollState::Idle), PollStep::Finished(PollOutcome::NoRows)),
        Some(candidate) => if cursor::order_failure(cycle.committed, candidate.fields@) is Some {
            (resting(cycle, PollState::BackingOff), PollStep::Failed(PollError::Driver))
        } else if batches == 0 {
            (resting(cycle, PollState::BackingOff), PollStep::Failed(PollError::Mapping))
        } else {
            (
                CycleModel {
                    tracker: TrackerModel {
                        pending: Some(publication(cycle, candidate, batches)),
                        accepted: Set::empty(),
                    },
                    publications: if cycle.publications < u64::MAX {
                        (cycle.publications + 1) as u64
                    } else {
                        0
                    },
                    state: PollState::AwaitingDelivery,
                    ..cycle
                },
                PollStep::Finished(PollOutcome::PublicationPending),
            )
        },
    }
}

/// A cycle after feedback on its publication.
pub open spec fn after_delivery(cycle: CycleModel, feedback: Completion) -> (CycleModel, PollStep) {
    let (tracker, decision) = completion::decided(cycle.tracker, feedback);
    match decision {
        CompletionDecision::Pending => (
            CycleModel { tracker, ..cycle },
            PollStep::Finished(PollOutcome::PublicationPending),
        ),
        CompletionDecision::Commit(token) => (
            CycleModel { tracker, committing: Some(token), state: PollState::Committing, ..cycle },
            PollStep::Commit { expected_revision: token.checkpoint_revision },
        ),
        CompletionDecision::ReplayFromCommitted => (
            resting(cycle, PollState::BackingOff),
            PollStep::Finished(PollOutcome::RetryScheduled),
        ),
        CompletionDecision::FailPermanent => (
            resting(cycle, PollState::BackingOff),
            PollStep::Failed(PollError::Completion),
        ),
    }
}

/// A cycle after its candidate was stored: the candidate is the committed position, at the
/// next revision.
pub open spec fn after_commit(cycle: CycleModel) -> (CycleModel, PollStep) {
    if cycle.revision == u64::MAX {
        (resting(cycle, PollState::BackingOff), PollStep::Failed(PollError::Checkpoint))
    } else {
        (
            CycleModel {
                committed: Some(cycle.committing->0.candidate_cursor.fields@),
                revision: (cycle.revision + 1) as u64,
                ..resting(cycle, PollState::Idle)
            },
            PollStep::Finished(PollOutcome::CheckpointCommitted),
        )
    }
}

/// A cycle after an event, and what is to be done next. What does not belong to the state
/// that polling is in changes nothing.
pub open spec fn stepped(cycle: CycleModel, event: PollEvent) -> (CycleModel, PollStep) {
    match (cycle.state, event) {
        (_, PollEvent::Drain) => (resting(cycle, PollState::Draining), PollStep::Stop),
        (PollState::Starting, PollEvent::CheckpointLoaded { committed, revision }) => (
            CycleModel {
                committed: fields_of(committed),
                revision,
                ..resting(cycle, PollState::Querying)
            },
            PollStep::Scrape,
        ),
        (PollState::Starting, PollEvent::CheckpointUnavailable) => (
            cycle,
            PollStep::Failed(PollError::Checkpoint),
        ),
        (PollState::Idle, PollEvent::PollEligible) => (
            resting(cycle, PollState::Querying),
            PollStep::Scrape,
        ),
        (PollState::BackingOff, PollEvent::PollEligible) => (
            resting(cycle, PollState::Querying),
            PollStep::Scrape,
        ),
        (PollState::Querying, PollEvent::PageRead { candidate, batches }) => after_page(
            cycle,
            candidate,
            batches,
        ),
        (PollState::Querying, PollEvent::ScrapeFailed) => (
            resting(cycle, PollState::BackingOff),
            PollStep::Failed(PollError::Driver),
        ),
        (PollState::Querying, PollEvent::MappingFailed) => (
            resting(cycle, PollState::BackingOff),
            PollStep::Failed(PollError::Mapping),
        ),
        (PollState::AwaitingDelivery, PollEvent::Delivery(feedback)) => after_delivery(
            cycle,
            feedback,
        ),
        (PollState::Committing, PollEvent::CommitSucceeded) => after_commit(cycle),
        (PollState::Committing, PollEvent::CommitFailed) => (
            resting(cycle, PollState::BackingOff),
            PollStep::Failed(PollError::Checkpoint),
        ),
        _ => (cycle, PollStep::Ignore),
    }
}

impl PollCycle {
    /// A cycle that has loaded no checkpoint yet.
    pub fn new() -> (r: Self)
        ensures
            r@ == (CycleModel {
                committed: None,
                revision: 0,
                tracker: completion::idle(),
                committing: None,
                publications: 0,
                state: PollState::Starting,
            }),
            cycle_valid(r@),
    {
        PollCycle {
            committed: None,
            revision: 0,
            completions: CompletionTracker::new(),
            committing: None,
            publications: 0,
            state: PollState::Starting,
        }
    }

    /// Where polling stands.
    pub fn state(&self) -> (r: PollState)
        ensures
            r == self@.state,
    {
        self.state
    }

    /// The position that the next page starts after.
    pub fn committed(&self) -> (r: Option<&Cursor>)
        ensures
            match r {
                Some(position) => self@.committed == Some(position.fields@),
                None => self@.committed is None,
            },
    {
        match &self.committed {
            Some(position) => Some(position),
            None => None,
        }
    }

    /// The position that is being stored.
    pub fn candidate(&self) -> (r: Option<&Cursor>)
        ensures
            match r {
                Some(position) => self@.committing is Some && *position
                    == self@.committing->0.candidate_cursor,
                None => self@.committing is None,
            },
    {
        match &self.committing {
            Some(token) => Some(&token.candidate_cursor),
            None => None,
        }
    }

    fn rest(&mut self, state: PollState)
        ensures
            final(self)@ == resting(old(self)@, state),
    {
        self.completions = CompletionTracker::new();
        self.committing = None;
        self.state = state;
    }

    fn take_page(&mut self, candidate: Option<Cursor>, batches: usize) -> (step: PollStep)
        requires
            cycle_valid(old(self)@),
            old(self)@.state is Querying,
        ensures
            (final(self)@, step) == after_page(old(self)@, candidate, batches),
    {
        let candidate = match candidate {
            Some(candidate) => candidate,
            None => {
                self.rest(PollState::Idle);
                return PollStep::Finished(PollOutcome::NoRows);
            },
        };
        let committed = match &self.committed {
            Some(position) => Some(position),
            None => None,
        };
        if validate_strictly_after(committed, &candidate).is_err() {
            self.rest(PollState::BackingOff);
            return PollStep::Failed(PollError::Driver);
        }
        if batches == 0 {
            self.rest(PollState::BackingOff);
            return PollStep::Failed(PollError::Mapping);
        }
        let token = DeliveryToken {
            publication_id: self.publications,
            checkpoint_revision: self.revision,
            candidate_cursor: candidate,
            expected_batch_count: batches,
        };
        let began = self.completions.begin(token);
        assert(began is Ok);
        self.publications = if self.publications < u64::MAX {
            self.publications + 1
        } else {
            0
        };
        self.state = PollState::AwaitingDelivery;
        PollStep::Finished(PollOutcome::PublicationPending)
    }

    fn take_delivery(&mut self, feedback: Completion) -> (step: PollStep)
        requires
            cycle_valid(old(self)@),
        ensures
            (final(self)@, step) == after_delivery(old(self)@, feedback),
    {
        match self.completions.apply(feedback) {
            CompletionDecision::Pending => PollStep::Finished(PollOutcome::PublicationPending),
            CompletionDecision::Commit(token) => {
                let expected_revision: u64 = token.checkpoint_revision;
                self.committing = Some(token);
                self.state = PollState::Committing;
                PollStep::Commit { expected_revision }
            },
            CompletionDecision::ReplayFromCommitted => {
                self.rest(PollState::BackingOff);
                PollStep::Finished(PollOutcome::RetryScheduled)
            },
            CompletionDecision::FailPermanent => {
                self.rest(PollState::BackingOff);
                PollStep::Failed(PollError::Completion)
            },
        }
    }

    fn take_commit(&mut self) -> (step: PollStep)
        requires
            cycle_valid(old(self)@),
            old(self)@.state is Committing,
        ensures
            (final(self)@, step) == after_commit(old(self)@),
    {
        if self.revision == u64::MAX {
            self.rest(PollState::BackingOff);
            return PollStep::Failed(PollError::Checkpoint);
        }
        match self.committing.take() {
            Some(token) => {
                self.committed = Some(token.candidate_cursor);
            },
            None => {},
        }
        self.revision = self.revision + 1;
        self.rest(PollState::Idle);
        PollStep::Finished(PollOutcome::CheckpointCommitted)
    }

    /// Moves the cycle on.
    pub fn advance(&mut self, event: PollEvent) -> (step: PollStep)
        requires
            cycle_valid(old(self)@),
        ensures
            (final(self)@, step) == stepped(old(self)@, event),
            cycle_valid(final(self)@),
    {
        proof {
            law_cycles_stay_valid(self@, event);
        }
        match (self.state, event) {
            (_, PollEvent::Drain) => {
                self.rest(PollState::Draining);
                PollStep::Stop
            },
            (PollState::Starting, PollEvent::CheckpointLoaded { committed, revision }) => {
                self.committed = committed;
                self.revision = revision;
                self.rest(PollState::Querying);
                PollStep::Scrape
            },
            (PollState::Starting, PollEvent::CheckpointUnavailable) => PollStep::Failed(
                PollError::Checkpoint,
            ),
            (PollState::Idle, PollEvent::PollEligible) => {
                self.rest(PollState::Querying);
                PollStep::Scrape
            },
            (PollState::BackingOff, PollEvent::PollEligible) => {
                self.rest(PollState::Querying);
                PollStep::Scrape
            },
            (PollState::Querying, PollEvent::PageRead { candidate, batches }) => self.take_page(
                candidate,
                batches,
            ),
            (PollState::Querying, PollEvent::ScrapeFailed) => {
                self.rest(PollState::BackingOff);
                PollStep::Failed(PollError::Driver)
            },
            (PollState::Querying, PollEvent::MappingFailed) => {
                self.rest(PollState::BackingOff);
                PollStep::Failed(PollError::Mapping)
            },
            (PollState::AwaitingDelivery, PollEvent::Delivery(feedback)) => self.take_delivery(
                feedback,
            ),
            (PollState::Committing, PollEvent::CommitSucceeded) => self.take_commit(),
            (PollState::Committing, PollEvent::CommitFailed) => {
                self.rest(PollState::BackingOff);
                PollStep::Failed(PollError::Checkpoint)
            },
            _ => PollStep::Ignore,
        }
    }
}

/// Every event keeps a cycle valid.
pub proof fn law_cycles_stay_valid(cycle: CycleModel, event: PollEvent)
    requires
        cycle_valid(cycle),
    ensures
        cycle_valid(stepped(cycle, event).0),
{
    if cycle.state is AwaitingDelivery && event is Delivery {
        assert(!completion::idle().accepted.contains(0nat));
    }
    if cycle.state is Querying && event is PageRead {
        assert(!Set::<nat>::empty().contains(0nat));
    }
}

/// Refused, late, cancelled or unstored deliveries never advance a source: once polling has
/// started, only the success of a commit changes the committed position.
pub proof fn law_only_a_commit_advances(cycle: CycleModel, event: PollEvent)
    requires
        cycle_valid(cycle),
        !(cycle.state is Starting),
        !(event is CommitSucceeded),
    ensures
        stepped(cycle, event).0.committed == cycle.committed,
        stepped(cycle, event).0.revision == cycle.revision,
{
}

/// Progress never turns back: where an event changes the committed position, the new one is
/// strictly after the old one, and the revision grows by one.
pub proof fn law_progress_moves_forward(cycle: CycleModel, event: PollEvent)
    requires
        cycle_valid(cycle),
        !(cycle.state is Starting),
        stepped(cycle, event).0.committed != cycle.committed,
    ensures
        stepped(cycle, event).0.committed matches Some(position) && cursor::order_failure(
            cycle.committed,
            position,
        ) is None,
        stepped(cycle, event).0.revision == cycle.revision + 1,
{
}

/// Nothing but a drain ever ends in draining, a drain is always obeyed, and it forgets what was
/// awaited without moving the committed position.
pub proof fn law_drains_are_obeyed(cycle: CycleModel, event: PollEvent)
    ensures
        ({
            let (after, step) = stepped(cycle, event);
            &&& event is Drain ==> step is Stop && after.state is Draining && after.tracker.pending
                is None && after.committing is None && after.committed == cycle.committed
                && after.revision == cycle.revision
            &&& !(event is Drain) ==> !(step is Stop) && (after.state is Draining ==> cycle.state
                is Draining)
        }),
{
}

/// A source is read when its checkpoint was loaded, from the position loaded, and when it may
/// be polled and nothing is under way. It is read at no other time.
pub proof fn law_sources_are_read_when_eligible(cycle: CycleModel, event: PollEvent)
    ensures
        ({
            let (after, step) = stepped(cycle, event);
            let eligible = (event is CheckpointLoaded && cycle.state is Starting) || (event
                is PollEligible && (cycle.state is Idle || cycle.state is BackingOff));
            &&& step is Scrape <==> eligible
            &&& eligible ==> after.state is Querying && after.tracker.pending is None
                && after.committing is None && after.publications == cycle.publications
            &&& eligible && !(cycle.state is Starting) ==> after.committed == cycle.committed
                && after.revision == cycle.revision
            &&& eligible ==> (event matches PollEvent::CheckpointLoaded { committed, revision }
                ==> after.revision == revision && (committed is None <==> after.committed is None)
                && (committed matches Some(position) ==> after.committed == Some(position.fields@)))
        }),
{
}

/// A page without rows leaves the source idle. A page whose position cannot be used fails it
/// as the driver's fault, one without batches as the mapping's. Any other page is awaited, with
/// its own position and batches, the revision it builds on, and a number of its own.
pub proof fn law_pages_are_awaited(cycle: CycleModel, candidate: Option<Cursor>, batches: usize)
    requires
        cycle.state is Querying,
    ensures
        ({
            let (after, step) = stepped(cycle, PollEvent::PageRead { candidate, batches });
            let usable = candidate is Some && cursor::order_failure(
                cycle.committed,
                candidate->0.fields@,
            ) is None;
            &&& after.committed == cycle.committed && after.revision == cycle.revision
            &&& candidate is None ==> step == PollStep::Finished(PollOutcome::NoRows)
                && after.state is Idle && after.tracker.pending is None
            &&& candidate is Some && !usable ==> step == PollStep::Failed(PollError::Driver)
                && after.state is BackingOff && after.tracker.pending is None
            &&& usable && batches == 0 ==> step == PollStep::Failed(PollError::Mapping)
                && after.state is BackingOff && after.tracker.pending is None
            &&& usable && batches > 0 ==> {
                &&& step == PollStep::Finished(PollOutcome::PublicationPending)
                &&& after.state is AwaitingDelivery
                &&& after.tracker.pending is Some
                &&& after.tracker.accepted == Set::<nat>::empty()
                &&& after.tracker.pending->0.candidate_cursor == candidate->0
                &&& after.tracker.pending->0.expected_batch_count == batches
                &&& after.tracker.pending->0.checkpoint_revision == cycle.revision
                &&& after.tracker.pending->0.publication_id == cycle.publications
                &&& after.publications != cycle.publications
                &&& cycle.publications < u64::MAX ==> after.publications > cycle.publications
                    && after.publications - cycle.publications == 1
                &&& after.committing == cycle.committing
            }
        }),
{
}

/// Failures of reading and mapping are told apart, and after either the source backs off with
/// its progress kept.
pub proof fn law_failed_reads_back_off(cycle: CycleModel)
    requires
        cycle.state is Querying,
    ensures
        ({
            let (after, step) = stepped(cycle, PollEvent::ScrapeFailed);
            &&& step == PollStep::Failed(PollError::Driver)
            &&& after.state is BackingOff
            &&& after.committed == cycle.committed
            &&& after.revision == cycle.revision
            &&& after.tracker.pending is None
        }),
        ({
            let (after, step) = stepped(cycle, PollEvent::MappingFailed);
            &&& step == PollStep::Failed(PollError::Mapping)
            &&& after.state is BackingOff
            &&& after.committed == cycle.committed
            &&& after.revision == cycle.revision
            &&& after.tracker.pending is None
        }),
{
}

/// A publication is stored exactly when its last missing batch is accepted, and it is the
/// awaited one that is stored, over the revision it builds on. A refusal or a timeout makes the
/// source back off: to be read again, or, where the refusal is final, as a failure. What was
/// awaited is then forgotten.
pub proof fn law_deliveries_store_or_back_off(cycle: CycleModel, feedback: Completion)
    requires
        cycle_valid(cycle),
        cycle.state is AwaitingDelivery,
    ensures
        ({
            let (after, step) = stepped(cycle, PollEvent::Delivery(feedback));
            let token = cycle.tracker.pending->0;
            let last = feedback matches Completion::Ack { batch_index } && batch_index
                < token.expected_batch_count && forall|n: nat|
                n < token.expected_batch_count && n != batch_index
                    ==> #[trigger] cycle.tracker.accepted.contains(n);
            let again = feedback is Timeout || (feedback matches Completion::Nack {
                batch_index,
                retryable,
            } && batch_index < token.expected_batch_count && retryable);
            let refused = feedback matches Completion::Nack { batch_index, retryable } && batch_index
                < token.expected_batch_count && !retryable;
            &&& after.committed == cycle.committed && after.revision == cycle.revision
            &&& last ==> after.state is Committing && after.committing == Some(token) && step == (
            PollStep::Commit { expected_revision: token.checkpoint_revision })
                && after.tracker.pending is None
            &&& again ==> after.state is BackingOff && step == PollStep::Finished(
                PollOutcome::RetryScheduled,
            ) && after.tracker.pending is None
            &&& refused ==> after.state is BackingOff && step == PollStep::Failed(
                PollError::Completion,
            ) && after.tracker.pending is None
            &&& !last && !again && !refused ==> after.state is AwaitingDelivery
                && after.tracker.pending == Some(token) && step == PollStep::Finished(
                PollOutcome::PublicationPending,
            )
        }),
{
    match feedback {
        Completion::Ack { batch_index } => {
            completion::law_acceptances_commit_when_complete(cycle.tracker, batch_index);
        },
        Completion::Nack { batch_index, retryable } => {
            completion::law_refusals_start_again_or_fail(cycle.tracker, batch_index, retryable);
        },
        Completion::Timeout => {
            completion::law_refusals_start_again_or_fail(cycle.tracker, 0, true);
        },
    }
}

/// A stored position becomes the committed one, one revision on, and the source is idle again.
/// One that could not be stored, or has no revision left, leaves progress as it was.
pub proof fn law_stored_positions_are_committed(cycle: CycleModel)
    requires
        cycle_valid(cycle),
        cycle.state is Committing,
    ensures
        ({
            let (after, step) = stepped(cycle, PollEvent::CommitSucceeded);
            &&& cycle.revision < u64::MAX ==> {
                &&& after.committed == Some(cycle.committing->0.candidate_cursor.fields@)
                &&& after.revision - cycle.revision == 1
                &&& after.state is Idle
                &&& step == PollStep::Finished(PollOutcome::CheckpointCommitted)
            }
            &&& cycle.revision == u64::MAX ==> {
                &&& after.committed == cycle.committed
                &&& after.revision == cycle.revision
                &&& after.state is BackingOff
                &&& step == PollStep::Failed(PollError::Checkpoint)
            }
            &&& after.committing is None
        }),
        ({
            let (after, step) = stepped(cycle, PollEvent::CommitFailed);
            &&& after.committed == cycle.committed
            &&& after.revision == cycle.revision
            &&& after.state is BackingOff
            &&& after.committing is None
            &&& step == PollStep::Failed(PollError::Checkpoint)
        }),
{
}

/// An event that does not belong to the state changes nothing and asks for nothing.
pub proof fn law_events_out_of_turn_change_nothing(cycle: CycleModel, event: PollEvent)
    ensures
        ({
            let in_turn = match event {
                PollEvent::Drain => true,
                PollEvent::CheckpointLoaded { .. } => cycle.state is Starting,
                PollEvent::CheckpointUnavailable => cycle.state is Starting,
                PollEvent::PollEligible => cycle.state is Idle || cycle.state is BackingOff,
                PollEvent::PageRead { .. } => cycle.state is Querying,
                PollEvent::ScrapeFailed => cycle.state is Querying,
                PollEvent::MappingFailed => cycle.state is Querying,
                PollEvent::Delivery(_) => cycle.state is AwaitingDelivery,
                PollEvent::CommitSucceeded => cycle.state is Committing,
                PollEvent::CommitFailed => cycle.state is Committing,
            };
            let (after, step) = stepped(cycle, event);
            &&& step is Ignore <==> !in_turn
            &&& !in_turn ==> after == cycle
            &&& event is CheckpointUnavailable && in_turn ==> after == cycle && step
                == PollStep::Failed(PollError::Checkpoint)
        }),
{
}

} // verus!
