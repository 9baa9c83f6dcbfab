//! Receiver lifecycle: scheduling, admission, completions and downstream sends.
//!
//! The receiver decides and accounts; it performs nothing. Whoever drives it opens
//! and closes sessions, runs polls, sends logs and reads clocks, and hands the
//! outcomes back. `S` is the driver's session, moved in and out and never looked at.

use crate::database::config;
use crate::database::config::{DatabaseReceiverConfig, ErrorPolicy, LimitsConfig, RetryConfig};
use crate::database::driver;
use crate::database::driver::{
    Credentials, CredentialError, DatabaseSystem, EnvironmentCredentialProvider, ErrorClass,
    ErrorDisposition, SessionDisposition,
};
use crate::database::metrics;
use crate::database::metrics::{MetricsModel, QueryMetrics};
use crate::database::otlp;
use crate::database::otlp::{batch_to_logs, OtlpMapping};
use crate::database::query;
use crate::database::query::{compile_queries, CompiledQuery, ExecutionLimits, QueryCompileError};
use crate::database::row::{RowBatch, RowPage};
use crate::database::scheduler;
use crate::database::scheduler::{random_number, AdmissionController, AdmissionModel, QuerySchedule, ScheduleModel};
use crate::json::JsonValue;
use crate::names::NameMap;
use crate::otlp::LogsData;
use crate::text;
use crate::text::{append_text, joined, owned};
use crate::time;
use crate::time::{Duration, Instant};
use vstd::prelude::*;

verus! {

/// One named query: its plan, its schedule and what it did.
pub struct QueryJob {
    query: CompiledQuery,
    schedule: QuerySchedule,
    metrics: QueryMetrics,
}

/// What a job holds.
pub struct JobModel {
    pub query: CompiledQuery,
    pub schedule: ScheduleModel,
    pub metrics: MetricsModel,
}

impl View for QueryJob {
    type V = JobModel;

    closed spec fn view(&self) -> JobModel {
        JobModel { query: self.query, schedule: self.schedule@, metrics: self.metrics@ }
    }
}

/// What a receiver holds.
pub struct ReceiverModel<S> {
    pub system: DatabaseSystem,
    pub attributes: Seq<(Seq<char>, JsonValue)>,
    pub jobs: Seq<JobModel>,
    pub limits: LimitsConfig,
    pub retry: RetryConfig,
    pub admission: AdmissionModel,
    pub shedding: bool,
    pub idle: Seq<S>,
    pub slots: nat,
}

/// How many jobs are running.
pub open spec fn running(jobs: Seq<JobModel>) -> nat
    decreases jobs.len(),
{
    if jobs.len() == 0 {
        0
    } else {
        running(jobs.drop_last()) + if jobs.last().schedule.running {
            1nat
        } else {
            0nat
        }
    }
}

/// What the jobs have reserved.
pub open spec fn reserved(jobs: Seq<JobModel>) -> nat
    decreases jobs.len(),
{
    if jobs.len() == 0 {
        0
    } else {
        reserved(jobs.drop_last()) + jobs.last().schedule.reserved as nat
    }
}

/// The invariant of a receiver: its accounts are those of its jobs, within budget, and
/// every open connection is either idle or held by a running job.
pub open spec fn valid<S>(receiver: ReceiverModel<S>) -> bool {
    &&& receiver.limits.max_concurrent_queries > 0
    &&& receiver.admission.max_queries == receiver.limits.max_concurrent_queries
    &&& receiver.admission.max_bytes == config::in_flight_bytes(receiver.limits)
    &&& scheduler::within_budget(receiver.admission)
    &&& receiver.admission.active == running(receiver.jobs)
    &&& receiver.admission.reserved == reserved(receiver.jobs)
    &&& forall|i: int|
        0 <= i < receiver.jobs.len() ==> (#[trigger] receiver.jobs[i]).schedule.running
            || receiver.jobs[i].schedule.reserved == 0
    &&& receiver.slots == receiver.idle.len() + running(receiver.jobs)
}

proof fn lemma_accounts_update(jobs: Seq<JobModel>, at: int, job: JobModel)
    requires
        0 <= at < jobs.len(),
    ensures
        running(jobs.update(at, job)) + if jobs[at].schedule.running {
            1int
        } else {
            0int
        } == running(jobs) + if job.schedule.running {
            1int
        } else {
            0int
        },
        reserved(jobs.update(at, job)) + jobs[at].schedule.reserved == reserved(jobs)
            + job.schedule.reserved,
    decreases jobs.len(),
{
    let after = jobs.update(at, job);
    if at == jobs.len() - 1 {
        assert(after.drop_last() =~= jobs.drop_last());
    } else {
        assert(after.drop_last() =~= jobs.drop_last().update(at, job));
        lemma_accounts_update(jobs.drop_last(), at, job);
    }
}

proof fn lemma_running_positive(jobs: Seq<JobModel>, at: int)
    requires
        0 <= at < jobs.len(),
        jobs[at].schedule.running,
    ensures
        running(jobs) >= 1,
        reserved(jobs) >= jobs[at].schedule.reserved,
    decreases jobs.len(),
{
    if at < jobs.len() - 1 {
        assert(jobs.drop_last()[at] == jobs[at]);
        lemma_running_positive(jobs.drop_last(), at);
    }
}

/// The bounds that an execution of a query has to keep.
pub open spec fn limits_of(limits: LimitsConfig, max_rows: usize) -> ExecutionLimits {
    ExecutionLimits {
        max_rows,
        max_batch_rows: if limits.max_batch_rows <= max_rows {
            limits.max_batch_rows
        } else {
            max_rows
        },
        max_batch_bytes: config::batch_bytes(limits),
        max_page_bytes: page_bytes(limits),
        fetch_size: limits.fetch_size,
    }
}

/// The reservation of one poll.
pub open spec fn page_bytes(limits: LimitsConfig) -> u64 {
    (config::in_flight_bytes(limits) as int / limits.max_concurrent_queries as int) as u64
}

/// The first job that can be started now.
pub open spec fn first_due(jobs: Seq<JobModel>, now: nat) -> Option<nat>
    decreases jobs.len(),
{
    if jobs.len() == 0 {
        None
    } else {
        match first_due(jobs.drop_last(), now) {
            Some(at) => Some(at),
            None => if scheduler::is_due(jobs.last().schedule, now) {
                Some((jobs.len() - 1) as nat)
            } else {
                None
            },
        }
    }
}

/// Whether no job can be started at all.
pub open spec fn none_waits(jobs: Seq<JobModel>) -> bool {
    forall|i: int|
        0 <= i < jobs.len() ==> !scheduler::is_waiting((#[trigger] jobs[i]).schedule)
}

/// Whether a moment is the earliest at which a waiting job is due.
pub open spec fn is_earliest(jobs: Seq<JobModel>, moment: nat) -> bool {
    &&& exists|i: int|
        0 <= i < jobs.len() && scheduler::is_waiting((#[trigger] jobs[i]).schedule)
            && jobs[i].schedule.next_due == moment
    &&& forall|i: int|
        0 <= i < jobs.len() && scheduler::is_waiting((#[trigger] jobs[i]).schedule) ==> moment
            <= jobs[i].schedule.next_due
}

/// One poll that was admitted: the job, the session it reuses if one was idle, and the
/// bounds it has to keep.
pub struct Admission<S> {
    /// The job to run.
    pub job_index: usize,
    /// An idle session to reuse; without one the poll opens a connection.
    pub session: Option<S>,
    /// The bounds of this execution.
    pub limits: ExecutionLimits,
}

/// The receiver after its first due job was admitted, and the admission; `None` when
/// nothing can be admitted: ingress is shed, no slot is free, nothing is due, no
/// connection may be opened, or the byte budget is used up.
pub open spec fn admit_one<S>(
    receiver: ReceiverModel<S>,
    now: nat,
    max_connections: nat,
) -> Option<(ReceiverModel<S>, Admission<S>)> {
    let bytes = page_bytes(receiver.limits);
    if receiver.shedding || receiver.admission.active >= receiver.admission.max_queries {
        None
    } else {
        match first_due(receiver.jobs, now) {
            None => None,
            Some(at) => {
                let connects = receiver.idle.len() == 0;
                if connects && receiver.slots >= max_connections {
                    None
                } else if !scheduler::admits(receiver.admission, bytes as nat) {
                    None
                } else {
                    let job = receiver.jobs[at as int];
                    let after = ReceiverModel {
                        jobs: receiver.jobs.update(
                            at as int,
                            JobModel {
                                schedule: scheduler::started(job.schedule, bytes),
                                metrics: metrics::with_start(job.metrics),
                                ..job
                            },
                        ),
                        admission: scheduler::acquired(receiver.admission, bytes as nat),
                        idle: if connects {
                            receiver.idle
                        } else {
                            receiver.idle.drop_last()
                        },
                        slots: if connects {
                            receiver.slots + 1
                        } else {
                            receiver.slots
                        },
                        ..receiver
                    };
                    let admission = Admission {
                        job_index: at as usize,
                        session: if connects {
                            None
                        } else {
                            Some(receiver.idle.last())
                        },
                        limits: limits_of(receiver.limits, job.query.max_rows),
                    };
                    Some((after, admission))
                }
            },
        }
    }
}

/// The receiver after everything that can be admitted was, and the admissions in order.
pub open spec fn admit_all<S>(
    receiver: ReceiverModel<S>,
    now: nat,
    max_connections: nat,
) -> (ReceiverModel<S>, Seq<Admission<S>>)
    decreases receiver.admission.max_queries - receiver.admission.active,
{
    match admit_one(receiver, now, max_connections) {
        None => (receiver, Seq::empty()),
        Some((after, admission)) => {
            let (last, rest) = admit_all(after, now, max_connections);
            (last, seq![admission] + rest)
        },
    }
}

proof fn lemma_first_due(jobs: Seq<JobModel>, now: nat)
    ensures
        first_due(jobs, now) matches Some(at) ==> at < jobs.len() && scheduler::is_due(
            jobs[at as int].schedule,
            now,
        ),
    decreases jobs.len(),
{
    if jobs.len() > 0 {
        lemma_first_due(jobs.drop_last(), now);
    }
}

proof fn lemma_first_due_found(jobs: Seq<JobModel>, now: nat, at: int)
    requires
        0 <= at < jobs.len(),
        scheduler::is_due(jobs[at].schedule, now),
        forall|i: int| 0 <= i < at ==> !scheduler::is_due((#[trigger] jobs[i]).schedule, now),
    ensures
        first_due(jobs, now) == Some(at as nat),
    decreases jobs.len(),
{
    let less = jobs.drop_last();
    if at < jobs.len() - 1 {
        assert(less[at] == jobs[at]);
        assert forall|i: int| 0 <= i < at implies !scheduler::is_due(
            (#[trigger] less[i]).schedule,
            now,
        ) by {
            assert(less[i] == jobs[i]);
        }
        lemma_first_due_found(less, now, at);
    } else {
        lemma_first_due(less, now);
        match first_due(less, now) {
            Some(i) => {
                assert(less[i as int] == jobs[i as int]);
            },
            None => {},
        }
    }
}

proof fn lemma_none_due(jobs: Seq<JobModel>, now: nat)
    requires
        forall|i: int|
            0 <= i < jobs.len() ==> !scheduler::is_due((#[trigger] jobs[i]).schedule, now),
    ensures
        first_due(jobs, now) is None,
{
    lemma_first_due(jobs, now);
}

/// Admitting a job keeps the receiver's accounts and budgets, and opens no connection
/// beyond the limit.
pub proof fn law_admission_keeps_the_receiver_valid<S>(
    receiver: ReceiverModel<S>,
    now: nat,
    max_connections: nat,
)
    requires
        valid(receiver),
    ensures
        admit_one(receiver, now, max_connections) matches Some((after, admission)) ==> {
            &&& valid(after)
            &&& after.slots <= receiver.slots || after.slots <= max_connections
        },
{
    lemma_first_due(receiver.jobs, now);
    match admit_one(receiver, now, max_connections) {
        Some((after, admission)) => {
            let at = first_due(receiver.jobs, now)->0 as int;
            lemma_accounts_update(receiver.jobs, at, after.jobs[at]);
        },
        None => {},
    }
}

/// Admitting all that can be admitted keeps the receiver valid, opens no connection
/// beyond the limit, and leaves nothing that could still be admitted.
pub proof fn law_admission_is_exhaustive<S>(
    receiver: ReceiverModel<S>,
    now: nat,
    max_connections: nat,
)
    requires
        valid(receiver),
    ensures
        valid(admit_all(receiver, now, max_connections).0),
        admit_one(admit_all(receiver, now, max_connections).0, now, max_connections) is None,
        receiver.slots <= max_connections ==> admit_all(receiver, now, max_connections).0.slots
            <= max_connections,
    decreases receiver.admission.max_queries - receiver.admission.active,
{
    law_admission_keeps_the_receiver_valid(receiver, now, max_connections);
    match admit_one(receiver, now, max_connections) {
        Some((after, admission)) => {
            law_admission_is_exhaustive(after, now, max_connections);
        },
        None => {},
    }
}

/// The receiver after a running job ended with this schedule and these metrics: the
/// job's reservation is given back.
pub open spec fn ended<S>(
    receiver: ReceiverModel<S>,
    at: int,
    schedule: ScheduleModel,
    activity: MetricsModel,
) -> ReceiverModel<S> {
    let job = receiver.jobs[at];
    ReceiverModel {
        jobs: receiver.jobs.update(at, JobModel { schedule, metrics: activity, ..job }),
        admission: scheduler::released(receiver.admission, job.schedule.reserved as nat),
        ..receiver
    }
}

/// The receiver without one of its connections.
pub open spec fn disconnected<S>(receiver: ReceiverModel<S>) -> ReceiverModel<S> {
    ReceiverModel {
        slots: if receiver.slots > 0 {
            (receiver.slots - 1) as nat
        } else {
            0
        },
        ..receiver
    }
}

/// The receiver with a session more to reuse.
pub open spec fn reusing<S>(receiver: ReceiverModel<S>, session: S) -> ReceiverModel<S> {
    ReceiverModel { idle: receiver.idle.push(session), ..receiver }
}

/// Whether a job exists and is running.
pub open spec fn is_running<S>(receiver: ReceiverModel<S>, at: int) -> bool {
    0 <= at < receiver.jobs.len() && receiver.jobs[at].schedule.running
}

/// Everything but the connections: what holds while a job's session has been settled and
/// the job itself has not ended.
pub open spec fn settling<S>(receiver: ReceiverModel<S>) -> bool {
    &&& valid(ReceiverModel { slots: receiver.idle.len() + running(receiver.jobs), ..receiver })
    &&& receiver.slots + 1 == receiver.idle.len() + running(receiver.jobs)
}

/// When a running job ends, its reservation is given back in full and nothing else is:
/// with its session settled before, the receiver is valid again.
pub proof fn law_ending_a_job_returns_its_reservation<S>(
    receiver: ReceiverModel<S>,
    at: int,
    schedule: ScheduleModel,
    activity: MetricsModel,
)
    requires
        settling(receiver),
        is_running(receiver, at),
        !schedule.running,
        schedule.reserved == 0,
    ensures
        valid(ended(receiver, at, schedule, activity)),
        ended(receiver, at, schedule, activity).admission.active + 1 == receiver.admission.active,
        ended(receiver, at, schedule, activity).admission.reserved
            + receiver.jobs[at].schedule.reserved == receiver.admission.reserved,
{
    lemma_running_positive(receiver.jobs, at);
    lemma_accounts_update(
        receiver.jobs,
        at,
        JobModel { schedule, metrics: activity, ..receiver.jobs[at] },
    );
}

/// How the engine classifies a receiver failure.
#[derive(Clone, Copy, Debug, PartialEq, Eq, Structural)]
pub enum ReceiverErrorKind {
    /// A connection could not be made.
    Connect,
    /// Configuration must change first.
    Configuration,
    /// The transport failed.
    Transport,
    /// The failure belongs to shutting down.
    Shutdown,
    /// None of the others.
    Other,
}

/// A failure that stops the receiver. Nothing in it holds SQL, rows or secrets.
pub struct ReceiverFailure {
    /// How the engine classifies it.
    pub kind: ReceiverErrorKind,
    /// What failed.
    pub error: String,
    /// Safe detail; empty when there is none.
    pub source_detail: String,
}

/// How the engine classifies an error class.
pub open spec fn kind_of(class: ErrorClass) -> ReceiverErrorKind {
    match class {
        ErrorClass::Configuration | ErrorClass::Authentication => ReceiverErrorKind::Configuration,
        ErrorClass::TransientTransport
        | ErrorClass::TimeoutCancel
        | ErrorClass::Query
        | ErrorClass::Downstream => ReceiverErrorKind::Transport,
        ErrorClass::Conversion | ErrorClass::Internal => ReceiverErrorKind::Other,
    }
}

/// Classifies an error class for the engine.
pub fn receiver_error_kind(class: ErrorClass) -> (r: ReceiverErrorKind)
    ensures
        r == kind_of(class),
{
    match class {
        ErrorClass::Configuration | ErrorClass::Authentication => ReceiverErrorKind::Configuration,
        ErrorClass::TransientTransport
        | ErrorClass::TimeoutCancel
        | ErrorClass::Query
        | ErrorClass::Downstream => ReceiverErrorKind::Transport,
        ErrorClass::Conversion | ErrorClass::Internal => ReceiverErrorKind::Other,
    }
}

/// Whether a failure is that of a query: its class and name, and the safe detail.
pub open spec fn reports(
    failure: ReceiverFailure,
    query_name: Seq<char>,
    class: ErrorClass,
    detail: Seq<char>,
) -> bool {
    &&& failure.kind == kind_of(class)
    &&& failure.error@ == "database query '"@ + query_name + "' failed with "@ + driver::class_name(
        class,
    )
    &&& failure.source_detail@ == detail
}

/// Reports a query's failure by its class; `safe_detail` is all that is added.
pub fn database_error(query_name: &str, class: ErrorClass, safe_detail: Option<String>) -> (r:
    ReceiverFailure)
    ensures
        reports(
            r,
            query_name@,
            class,
            match safe_detail {
                Some(detail) => detail@,
                None => Seq::empty(),
            },
        ),
{
    let mut error = joined("database query '", query_name, "' failed with ");
    append_text(&mut error, class.as_str());
    let source_detail = match safe_detail {
        Some(detail) => detail,
        None => String::new(),
    };
    ReceiverFailure { kind: receiver_error_kind(class), error, source_detail }
}

/// Reports a row that could not be mapped; what the row held is left out.
pub fn mapping_error(query_name: &str) -> (r: ReceiverFailure)
    ensures
        reports(
            r,
            query_name@,
            ErrorClass::Conversion,
            "database row failed the configured OTLP mapping"@,
        ),
{
    database_error(
        query_name,
        ErrorClass::Conversion,
        Some(owned("database row failed the configured OTLP mapping")),
    )
}

/// The observation time: nanoseconds since the Unix epoch, zero when the clock stands
/// before it, and `u64::MAX` when they are too many to count.
pub fn unix_time_nanos(since_epoch: Option<Duration>) -> (nanos: u64)
    ensures
        nanos == match since_epoch {
            Some(duration) => if duration@ > u64::MAX {
                u64::MAX as nat
            } else {
                duration@
            },
            None => 0,
        },
{
    match since_epoch {
        Some(duration) => duration.capped_nanos(),
        None => 0,
    }
}

/// Common database receiver: jobs, budgets and idle sessions.
pub struct DatabaseReceiver<S> {
    system: DatabaseSystem,
    credentials: EnvironmentCredentialProvider,
    resource_attributes: NameMap<JsonValue>,
    jobs: Vec<QueryJob>,
    limits: LimitsConfig,
    retry: RetryConfig,
    admission: AdmissionController,
    shedding: bool,
    idle_sessions: Vec<S>,
    connection_slots: usize,
}

impl<S> View for DatabaseReceiver<S> {
    type V = ReceiverModel<S>;

    closed spec fn view(&self) -> ReceiverModel<S> {
        ReceiverModel {
            system: self.system,
            attributes: self.resource_attributes@,
            jobs: self.jobs@.map_values(|job: QueryJob| job@),
            limits: self.limits,
            retry: self.retry,
            admission: self.admission@,
            shedding: self.shedding,
            idle: self.idle_sessions@,
            slots: self.connection_slots as nat,
        }
    }
}

/// What a completed poll brought back.
#[allow(inconsistent_fields)]
pub enum PollOutcome<S> {
    /// A page, and the session that read it; `expired` when the session is too old to
    /// be reused.
    Page { session: S, expired: bool, page: RowPage },
    /// Credentials could not be resolved, so no session was opened.
    Credentials { error: CredentialError },
    /// The driver failed, with the session unless none was opened.
    Adapter { session: Option<S>, disposition: ErrorDisposition },
}

/// What is to be done after a poll completed, once `close` is closed.
pub struct CompletionStep<S> {
    /// A session to close.
    pub close: Option<S>,
    /// What comes next.
    pub next: AfterPoll,
}

/// What comes after a poll.
pub enum AfterPoll {
    /// The page's batches are to be delivered.
    Deliver(Delivery),
    /// Polling goes on.
    Continue,
    /// Polling goes on without this query.
    QueryStopped {
        /// The class of the failure that stopped it.
        class: ErrorClass,
    },
    /// The receiver stops.
    Fail(ReceiverFailure),
}

/// The batches of one page that are still to be delivered.
pub struct Delivery {
    /// The job that read the page.
    pub job_index: usize,
    /// Batches not delivered yet, in order.
    pub batches: Vec<RowBatch>,
    /// Rows of the whole page.
    pub row_count: usize,
    /// Normalized bytes of the whole page.
    pub normalized_bytes: u64,
    /// How long the poll took.
    pub duration: Duration,
    /// When the page was observed.
    pub observed_time_unix_nano: u64,
}

/// One step of a delivery.
pub enum DeliveryStep {
    /// These logs are to be sent.
    Send(LogsData),
    /// All was delivered and the job is scheduled again.
    Finished,
    /// A row could not be mapped; polling goes on without this query.
    QueryStopped,
    /// A row could not be mapped; the receiver stops.
    Fail(ReceiverFailure),
}

/// The receiver after a poll brought an outcome back, up to what `random` draws.
pub open spec fn settled<S>(
    receiver: ReceiverModel<S>,
    at: int,
    outcome: PollOutcome<S>,
    duration: Duration,
    now: nat,
    random: u64,
) -> ReceiverModel<S> {
    let job = receiver.jobs[at];
    match outcome {
        PollOutcome::Page { session, expired, page } => if expired {
            disconnected(receiver)
        } else {
            reusing(receiver, session)
        },
        PollOutcome::Credentials { error } => ended(
            disconnected(receiver),
            at,
            scheduler::stopped(job.schedule),
            metrics::with_failure(job.metrics, ErrorClass::Authentication, duration),
        ),
        PollOutcome::Adapter { session, disposition } => {
            let after = match session {
                Some(session) => if disposition.session is Reuse {
                    reusing(receiver, session)
                } else {
                    disconnected(receiver)
                },
                None => disconnected(receiver),
            };
            let activity = metrics::with_failure(job.metrics, disposition.class, duration);
            if disposition.retryable && receiver.retry.enabled {
                ended(
                    after,
                    at,
                    scheduler::retried(job.schedule, now, receiver.retry, random),
                    activity,
                )
            } else {
                ended(after, at, scheduler::stopped(job.schedule), activity)
            }
        },
    }
}

/// The session that has to be closed after a poll.
pub open spec fn to_close<S>(outcome: PollOutcome<S>) -> Option<S> {
    match outcome {
        PollOutcome::Page { session, expired, page } => if expired {
            Some(session)
        } else {
            None
        },
        PollOutcome::Credentials { error } => None,
        PollOutcome::Adapter { session, disposition } => if disposition.session is Discard {
            session
        } else {
            None
        },
    }
}

/// Whether a step is what comes after a poll: a page is delivered, a retryable failure
/// goes on when retries are enabled, and any other failure stops the query or, by its
/// policy, the receiver. Credential failures always stop the receiver.
pub open spec fn follows<S>(
    next: AfterPoll,
    receiver: ReceiverModel<S>,
    at: int,
    outcome: PollOutcome<S>,
    duration: Duration,
    observed: u64,
) -> bool {
    let job = receiver.jobs[at];
    match outcome {
        PollOutcome::Page { session, expired, page } => next matches AfterPoll::Deliver(delivery)
            && delivery == (Delivery {
            job_index: at as usize,
            batches: page.batches,
            row_count: page.row_count,
            normalized_bytes: page.normalized_bytes,
            duration,
            observed_time_unix_nano: observed,
        }),
        PollOutcome::Credentials { error } => next matches AfterPoll::Fail(failure) && reports(
            failure,
            job.query.name@,
            ErrorClass::Authentication,
            driver::credential_message(error),
        ),
        PollOutcome::Adapter { session, disposition } => if disposition.retryable
            && receiver.retry.enabled {
            next is Continue
        } else if job.query.error_policy is StopQuery {
            next == (AfterPoll::QueryStopped { class: disposition.class })
        } else {
            next matches AfterPoll::Fail(failure) && reports(
                failure,
                job.query.name@,
                disposition.class,
                Seq::empty(),
            )
        },
    }
}

/// After a poll either the page's session is settled and its delivery is due, or the
/// job has ended and the receiver is valid again.
pub proof fn law_completion_keeps_the_accounts<S>(
    receiver: ReceiverModel<S>,
    at: int,
    outcome: PollOutcome<S>,
    duration: Duration,
    now: nat,
    random: u64,
)
    requires
        valid(receiver),
        is_running(receiver, at),
    ensures
        ({
            let after = settled(receiver, at, outcome, duration, now, random);
            if outcome is Page {
                settling(after) && is_running(after, at)
            } else {
                valid(after)
            }
        }),
{
    lemma_running_positive(receiver.jobs, at);
    let job = receiver.jobs[at];
    match outcome {
        PollOutcome::Page { session, expired, page } => {},
        PollOutcome::Credentials { error } => {
            law_ending_a_job_returns_its_reservation(
                disconnected(receiver),
                at,
                scheduler::stopped(job.schedule),
                metrics::with_failure(job.metrics, ErrorClass::Authentication, duration),
            );
        },
        PollOutcome::Adapter { session, disposition } => {
            let after = match session {
                Some(session) => if disposition.session is Reuse {
                    reusing(receiver, session)
                } else {
                    disconnected(receiver)
                },
                None => disconnected(receiver),
            };
            let activity = metrics::with_failure(job.metrics, disposition.class, duration);
            let schedule = if disposition.retryable && receiver.retry.enabled {
                scheduler::retried(job.schedule, now, receiver.retry, random)
            } else {
                scheduler::stopped(job.schedule)
            };
            law_ending_a_job_returns_its_reservation(after, at, schedule, activity);
        },
    }
}

/// The context in which a job's rows are mapped.
pub open spec fn mapping_of<'a>(
    mapping: OtlpMapping<'a>,
    system: DatabaseSystem,
    attributes: Seq<(Seq<char>, JsonValue)>,
    job: JobModel,
    observed: u64,
) -> bool {
    &&& mapping.system == system
    &&& mapping.query_name@ == job.query.name@
    &&& *mapping.output == job.query.output
    &&& mapping.resource_attributes@ == attributes
    &&& mapping.observed_time_unix_nano == observed
}

impl<S> DatabaseReceiver<S> {
    /// Builds the shared runtime from validated config, one adapter's identity and whether
    /// memory is so scarce that ingress is shed.
    pub fn new<C>(
        config: DatabaseReceiverConfig<C>,
        system: DatabaseSystem,
        username: String,
        password_env: String,
        shedding: bool,
        now: Instant,
    ) -> (r: Result<Self, QueryCompileError>)
        requires
            config.limits.max_concurrent_queries > 0,
            time::has_room(now),
        ensures
            match r {
                Err(error) => query::first_query_failure(config.queries@) == Some(error@),
                Ok(receiver) => {
                    &&& query::first_query_failure(config.queries@) is None
                    &&& valid(receiver@)
                    &&& receiver.user() == username@
                    &&& receiver.password_variable() == password_env@
                    &&& receiver@.system == system
                    &&& receiver@.attributes == config.resource_attributes@
                    &&& receiver@.limits == config.limits
                    &&& receiver@.retry == config.retry
                    &&& receiver@.shedding == shedding
                    &&& receiver@.idle.len() == 0
                    &&& receiver@.slots == 0
                    &&& receiver@.jobs.len() == config.queries@.len()
                    &&& forall|i: int|
                        0 <= i < receiver@.jobs.len() ==> starts(
                            #[trigger] receiver@.jobs[i],
                            system,
                            config.queries@[i],
                            now@,
                            config.scheduling.startup_jitter_max@,
                        )
                },
            },
    {
        let startup_jitter_max = config.scheduling.startup_jitter_max;
        let limits = config.limits;
        let ghost queries = config.queries@;
        let mut plans = match compile_queries(config.queries) {
            Err(error) => {
                return Err(error);
            },
            Ok(plans) => plans,
        };
        let ghost all = plans@;
        let mut jobs: Vec<QueryJob> = Vec::new();
        let ghost mut done: nat = 0;
        assert(all.skip(0) =~= all);
        while plans.len() > 0
            invariant
                done <= all.len(),
                plans@ == all.skip(done as int),
                jobs@.len() == done,
                all.len() == queries.len(),
                time::has_room(now),
                forall|i: int|
                    0 <= i < all.len() ==> query::plans(
                        #[trigger] all[i],
                        queries[i].0,
                        queries[i].1,
                    ),
                forall|i: int|
                    0 <= i < done ==> starts(
                        (#[trigger] jobs@[i])@,
                        system,
                        queries[i],
                        now@,
                        startup_jitter_max@,
                    ),
            decreases plans@.len(),
        {
            let ghost before = plans@;
            let plan = plans.remove(0);
            proof {
                assert(plan == all[done as int]);
                assert(plans@ =~= all.skip(done as int + 1));
            }
            let schedule = QuerySchedule::new(now, plan.interval, startup_jitter_max);
            let metrics = QueryMetrics::register(system, plan.name.as_str());
            jobs.push(QueryJob { query: plan, schedule, metrics });
            proof {
                done = done + 1;
            }
        }
        assert(all.skip(done as int).len() == 0);
        let receiver = DatabaseReceiver {
            system,
            credentials: EnvironmentCredentialProvider::new(username, password_env),
            resource_attributes: config.resource_attributes,
            jobs,
            limits,
            retry: config.retry,
            admission: AdmissionController::new(
                limits.max_concurrent_queries,
                limits.max_in_flight_bytes(),
            ),
            shedding,
            idle_sessions: Vec::new(),
            connection_slots: 0,
        };
        proof {
            lemma_none_running(receiver@.jobs);
        }
        Ok(receiver)
    }

    /// The user that logs in.
    pub closed spec fn user(self) -> Seq<char> {
        self.credentials.user()
    }

    /// The environment variable that holds the password.
    pub closed spec fn password_variable(self) -> Seq<char> {
        self.credentials.variable()
    }

    /// Borrows the credential reference that new connections resolve.
    pub fn credentials(&self) -> (r: &EnvironmentCredentialProvider)
        ensures
            r.user() == self.user(),
            r.variable() == self.password_variable(),
    {
        &self.credentials
    }

    /// Borrows the plan of a job.
    pub fn query(&self, job_index: usize) -> (r: &CompiledQuery)
        requires
            job_index < self@.jobs.len(),
        ensures
            *r == self@.jobs[job_index as int].query,
    {
        &self.jobs[job_index].query
    }

    /// How many jobs there are.
    pub fn job_count(&self) -> (n: usize)
        ensures
            n == self@.jobs.len(),
    {
        self.jobs.len()
    }

    /// Whether a job is running a poll.
    pub fn job_running(&self, job_index: usize) -> (found: bool)
        requires
            job_index < self@.jobs.len(),
        ensures
            found == self@.jobs[job_index as int].schedule.running,
    {
        self.jobs[job_index].schedule.is_running()
    }

    /// The bounds of one execution of a query.
    pub fn execution_limits(&self, query: &CompiledQuery) -> (r: ExecutionLimits)
        requires
            self@.limits.max_concurrent_queries > 0,
        ensures
            r == limits_of(self@.limits, query.max_rows),
    {
        self.bounds(query.max_rows)
    }

    fn bounds(&self, max_rows: usize) -> (r: ExecutionLimits)
        requires
            self@.limits.max_concurrent_queries > 0,
        ensures
            r == limits_of(self@.limits, max_rows),
    {
        proof {
            let total = config::in_flight_bytes(self.limits) as int;
            let share = self.limits.max_concurrent_queries as int;
            assert(0 <= total / share <= total) by (nonlinear_arith)
                requires
                    total >= 0,
                    share > 0,
            ;
        }
        ExecutionLimits {
            max_rows,
            max_batch_rows: if self.limits.max_batch_rows <= max_rows {
                self.limits.max_batch_rows
            } else {
                max_rows
            },
            max_batch_bytes: self.limits.max_batch_bytes(),
            max_page_bytes: self.limits.max_page_bytes(),
            fetch_size: self.limits.fetch_size,
        }
    }
}

/// Whether a job is that of a query before its first poll, which is due within the
/// startup jitter.
pub open spec fn starts(
    job: JobModel,
    system: DatabaseSystem,
    configured: (Seq<char>, crate::database::config::QueryConfig),
    now: nat,
    jitter: nat,
) -> bool {
    &&& query::plans(job.query, configured.0, configured.1)
    &&& job.schedule == scheduler::fresh(configured.1.interval@, job.schedule.next_due)
    &&& now <= job.schedule.next_due <= now + jitter
    &&& job.metrics == metrics::no_activity(system, configured.0)
}

proof fn lemma_none_running(jobs: Seq<JobModel>)
    requires
        forall|i: int|
            0 <= i < jobs.len() ==> !(#[trigger] jobs[i]).schedule.running
                && jobs[i].schedule.reserved == 0,
    ensures
        running(jobs) == 0,
        reserved(jobs) == 0,
    decreases jobs.len(),
{
    if jobs.len() > 0 {
        lemma_none_running(jobs.drop_last());
    }
}

impl<S> DatabaseReceiver<S> {
    /// Finds the first job that can be started now.
    fn first_due_job(&self, now: Instant) -> (r: Option<usize>)
        ensures
            match r {
                Some(at) => first_due(self@.jobs, now@) == Some(at as nat) && at < self@.jobs.len(),
                None => first_due(self@.jobs, now@) is None,
            },
    {
        let mut i: usize = 0;
        while i < self.jobs.len()
            invariant
                i <= self.jobs@.len(),
                self@.jobs.len() == self.jobs@.len(),
                forall|j: int|
                    0 <= j < i ==> !scheduler::is_due((#[trigger] self@.jobs[j]).schedule, now@),
            decreases self.jobs.len() - i,
        {
            assert(self@.jobs[i as int] == self.jobs@[i as int]@);
            if self.jobs[i].schedule.is_due(now) {
                proof {
                    lemma_first_due_found(self@.jobs, now@, i as int);
                }
                return Some(i);
            }
            i += 1;
        }
        proof {
            lemma_none_due(self@.jobs, now@);
        }
        None
    }

    /// Admits the first due job, if anything can be admitted.
    pub fn admit_next(&mut self, now: Instant, max_connections: usize) -> (r: Option<Admission<S>>)
        requires
            valid(old(self)@),
        ensures
            valid(final(self)@),
            match r {
                Some(admission) => admit_one(old(self)@, now@, max_connections as nat) == Some(
                    (final(self)@, admission),
                ),
                None => admit_one(old(self)@, now@, max_connections as nat) is None && final(self)@
                    == old(self)@,
            },
            final(self).user() == old(self).user(),
            final(self).password_variable() == old(self).password_variable(),
    {
        let ghost before = self@;
        proof {
            law_admission_keeps_the_receiver_valid(before, now@, max_connections as nat);
        }
        if self.shedding || !self.admission.has_capacity() {
            return None;
        }
        let job_index: usize = match self.first_due_job(now) {
            Some(at) => at,
            None => {
                return None;
            },
        };
        let connects = self.idle_sessions.len() == 0;
        if connects && self.connection_slots >= max_connections {
            return None;
        }
        let limits = self.bounds(self.jobs[job_index].query.max_rows);
        let reservation: u64 = limits.max_page_bytes;
        if !self.admission.try_acquire(reservation) {
            return None;
        }
        let session = self.idle_sessions.pop();
        if connects {
            self.connection_slots += 1;
        }
        proof {
            lemma_first_due(before.jobs, now@);
        }
        self.jobs[job_index].schedule.start(reservation);
        self.jobs[job_index].metrics.poll_started();
        let ghost wanted = admit_one(before, now@, max_connections as nat)->0;
        assert(self@.jobs =~= wanted.0.jobs);
        assert(self@.idle =~= wanted.0.idle);
        Some(Admission { job_index, session, limits })
    }

    /// Admits every job that is due, as far as slots, connections and bytes go.
    pub fn admit_due(&mut self, now: Instant, max_connections: usize) -> (r: Vec<Admission<S>>)
        requires
            valid(old(self)@),
        ensures
            valid(final(self)@),
            admit_all(old(self)@, now@, max_connections as nat) == (final(self)@, r@),
            final(self).user() == old(self).user(),
            final(self).password_variable() == old(self).password_variable(),
    {
        let ghost before = self@;
        let mut admitted: Vec<Admission<S>> = Vec::new();
        let mut more = true;
        assert(admitted@ + admit_all(self@, now@, max_connections as nat).1 =~= admit_all(
            self@,
            now@,
            max_connections as nat,
        ).1);
        while more
            invariant
                valid(self@),
                before == old(self)@,
                self.user() == old(self).user(),
                self.password_variable() == old(self).password_variable(),
                more ==> admit_all(before, now@, max_connections as nat) == (
                    admit_all(self@, now@, max_connections as nat).0,
                    admitted@ + admit_all(self@, now@, max_connections as nat).1,
                ),
                !more ==> admit_all(before, now@, max_connections as nat) == (self@, admitted@),
            decreases
                    self@.admission.max_queries - self@.admission.active,
                    if more {
                        1int
                    } else {
                        0int
                    },
        {
            let ghost here = self@;
            let ghost earlier = admitted@;
            match self.admit_next(now, max_connections) {
                Some(admission) => {
                    admitted.push(admission);
                    assert(admitted@ + admit_all(self@, now@, max_connections as nat).1
                        =~= earlier + admit_all(here, now@, max_connections as nat).1);
                },
                None => {
                    more = false;
                    assert(admitted@ =~= earlier + admit_all(here, now@, max_connections as nat).1);
                },
            }
        }
        admitted
    }

    /// The earliest moment at which a waiting job is due; a day from now when none waits.
    pub fn next_deadline(&self, now: Instant) -> (r: Instant)
        requires
            time::has_room(now),
        ensures
            is_earliest(self@.jobs, r@) || (none_waits(self@.jobs) && r@ == now@ + 86_400
                * 1_000_000_000),
    {
        let mut earliest: Option<Instant> = None;
        let mut i: usize = 0;
        while i < self.jobs.len()
            invariant
                i <= self.jobs@.len(),
                self@.jobs.len() == self.jobs@.len(),
                earliest is None ==> forall|j: int|
                    0 <= j < i ==> !scheduler::is_waiting((#[trigger] self@.jobs[j]).schedule),
                earliest matches Some(due) ==> (exists|j: int|
                    0 <= j < i && scheduler::is_waiting((#[trigger] self@.jobs[j]).schedule)
                        && self@.jobs[j].schedule.next_due == due@) && (forall|j: int|
                    0 <= j < i && scheduler::is_waiting((#[trigger] self@.jobs[j]).schedule)
                        ==> due@ <= self@.jobs[j].schedule.next_due),
            decreases self.jobs.len() - i,
        {
            assert(self@.jobs[i as int] == self.jobs@[i as int]@);
            if let Some(due) = self.jobs[i].schedule.next_due() {
                match earliest {
                    Some(known) => {
                        if due.at_most(&known) {
                            earliest = Some(due);
                        }
                    },
                    None => {
                        earliest = Some(due);
                    },
                }
            }
            i += 1;
        }
        match earliest {
            Some(due) => due,
            None => now.later(Duration::from_secs(86_400)),
        }
    }

    /// Whether waiting for the next deadline makes sense: a slot is free and ingress is
    /// not shed.
    pub fn waits_for_deadline(&self) -> (found: bool)
        ensures
            found == (self@.admission.active < self@.admission.max_queries && !self@.shedding),
    {
        self.admission.has_capacity() && !self.shedding
    }

    /// Takes note of whether memory pressure asks to shed ingress.
    pub fn set_shedding(&mut self, shedding: bool)
        ensures
            final(self)@ == (ReceiverModel { shedding, ..old(self)@ }),
            final(self).user() == old(self).user(),
            final(self).password_variable() == old(self).password_variable(),
    {
        self.shedding = shedding;
    }

    fn drop_connection(&mut self)
        ensures
            final(self)@ == disconnected(old(self)@),
            final(self).user() == old(self).user(),
            final(self).password_variable() == old(self).password_variable(),
    {
        self.connection_slots = self.connection_slots.saturating_sub(1);
    }

    fn keep_session(&mut self, session: S)
        ensures
            final(self)@ == reusing(old(self)@, session),
            final(self).user() == old(self).user(),
            final(self).password_variable() == old(self).password_variable(),
    {
        self.idle_sessions.push(session);
    }

    fn record_failure(&mut self, job_index: usize, class: ErrorClass, duration: Duration)
        requires
            job_index < old(self)@.jobs.len(),
        ensures
            final(self)@ == (ReceiverModel {
                jobs: old(self)@.jobs.update(
                    job_index as int,
                    JobModel {
                        metrics: metrics::with_failure(
                            old(self)@.jobs[job_index as int].metrics,
                            class,
                            duration,
                        ),
                        ..old(self)@.jobs[job_index as int]
                    },
                ),
                ..old(self)@
            }),
            final(self).user() == old(self).user(),
            final(self).password_variable() == old(self).password_variable(),
    {
        let ghost before = self@;
        self.jobs[job_index].metrics.poll_failed(class, duration);
        assert(self@.jobs =~= before.jobs.update(
            job_index as int,
            JobModel {
                metrics: metrics::with_failure(
                    before.jobs[job_index as int].metrics,
                    class,
                    duration,
                ),
                ..before.jobs[job_index as int]
            },
        ));
    }

    fn stop_job(&mut self, job_index: usize)
        requires
            job_index < old(self)@.jobs.len(),
        ensures
            final(self)@ == ended(
                old(self)@,
                job_index as int,
                scheduler::stopped(old(self)@.jobs[job_index as int].schedule),
                old(self)@.jobs[job_index as int].metrics,
            ),
            final(self).user() == old(self).user(),
            final(self).password_variable() == old(self).password_variable(),
    {
        let ghost before = self@;
        let reservation: u64 = self.jobs[job_index].schedule.stop();
        self.admission.release(reservation);
        assert(self@.jobs =~= ended(
            before,
            job_index as int,
            scheduler::stopped(before.jobs[job_index as int].schedule),
            before.jobs[job_index as int].metrics,
        ).jobs);
    }

    fn retry_job(&mut self, job_index: usize, now: Instant, random: u64)
        requires
            job_index < old(self)@.jobs.len(),
            time::has_room(now),
        ensures
            final(self)@ == ended(
                old(self)@,
                job_index as int,
                scheduler::retried(
                    old(self)@.jobs[job_index as int].schedule,
                    now@,
                    old(self)@.retry,
                    random,
                ),
                old(self)@.jobs[job_index as int].metrics,
            ),
            final(self).user() == old(self).user(),
            final(self).password_variable() == old(self).password_variable(),
    {
        let ghost before = self@;
        let retry = self.retry;
        let reservation: u64 = self.jobs[job_index].schedule.retry_with(now, &retry, random);
        self.admission.release(reservation);
        assert(self@.jobs =~= ended(
            before,
            job_index as int,
            scheduler::retried(
                before.jobs[job_index as int].schedule,
                now@,
                before.retry,
                random,
            ),
            before.jobs[job_index as int].metrics,
        ).jobs);
    }

    /// Settles a completed poll: its session, its schedule and its accounts; `random`
    /// spreads a retry.
    pub fn settle_completion(
        &mut self,
        job_index: usize,
        outcome: PollOutcome<S>,
        duration: Duration,
        observed_time_unix_nano: u64,
        now: Instant,
        random: u64,
    ) -> (r: CompletionStep<S>)
        requires
            valid(old(self)@),
            is_running(old(self)@, job_index as int),
            time::has_room(now),
        ensures
            final(self)@ == settled(
                old(self)@,
                job_index as int,
                outcome,
                duration,
                now@,
                random,
            ),
            r.close == to_close(outcome),
            follows(
                r.next,
                old(self)@,
                job_index as int,
                outcome,
                duration,
                observed_time_unix_nano,
            ),
            final(self).user() == old(self).user(),
            final(self).password_variable() == old(self).password_variable(),
    {
        let ghost before = self@;
        let ghost at = job_index as int;
        assert(self@.jobs[at] == self.jobs@[at]@);
        match outcome {
            PollOutcome::Page { session, expired, page } => {
                let close = if expired {
                    self.drop_connection();
                    Some(session)
                } else {
                    self.keep_session(session);
                    None
                };
                let delivery = Delivery {
                    job_index,
                    batches: page.batches,
                    row_count: page.row_count,
                    normalized_bytes: page.normalized_bytes,
                    duration,
                    observed_time_unix_nano,
                };
                CompletionStep { close, next: AfterPoll::Deliver(delivery) }
            },
            PollOutcome::Credentials { error } => {
                self.drop_connection();
                self.stop_job(job_index);
                self.record_failure(job_index, ErrorClass::Authentication, duration);
                assert(self@.jobs =~= settled(
                    before,
                    at,
                    outcome,
                    duration,
                    now@,
                    random,
                ).jobs);
                assert(self@.jobs[at].query == before.jobs[at].query);
                let failure = database_error(
                    self.query(job_index).name.as_str(),
                    ErrorClass::Authentication,
                    Some(error.message()),
                );
                CompletionStep { close: None, next: AfterPoll::Fail(failure) }
            },
            PollOutcome::Adapter { session, disposition } => {
                self.record_failure(job_index, disposition.class, duration);
                let close = match session {
                    Some(session) => {
                        if disposition.session == SessionDisposition::Reuse {
                            self.keep_session(session);
                            None
                        } else {
                            self.drop_connection();
                            Some(session)
                        }
                    },
                    None => {
                        self.drop_connection();
                        None
                    },
                };
                if disposition.retryable && self.retry.enabled {
                    self.retry_job(job_index, now, random);
                    assert(self@.jobs =~= settled(
                        before,
                        at,
                        outcome,
                        duration,
                        now@,
                        random,
                    ).jobs);
                    return CompletionStep { close, next: AfterPoll::Continue };
                }
                self.stop_job(job_index);
                assert(self@.jobs =~= settled(
                    before,
                    at,
                    outcome,
                    duration,
                    now@,
                    random,
                ).jobs);
                assert(self@.jobs[at].query == before.jobs[at].query);
                let next = if self.query(job_index).error_policy == ErrorPolicy::StopQuery {
                    AfterPoll::QueryStopped { class: disposition.class }
                } else {
                    AfterPoll::Fail(
                        database_error(
                            self.query(job_index).name.as_str(),
                            disposition.class,
                            None,
                        ),
                    )
                };
                CompletionStep { close, next }
            },
        }
    }
}

/// The receiver after a page was delivered in full: the job is due an interval later.
pub open spec fn delivered<S>(
    receiver: ReceiverModel<S>,
    at: int,
    rows: nat,
    bytes: u64,
    duration: Duration,
    now: nat,
) -> ReceiverModel<S> {
    let job = receiver.jobs[at];
    ended(
        receiver,
        at,
        scheduler::completed(job.schedule, now),
        metrics::with_completion(job.metrics, rows, bytes, duration),
    )
}

/// The receiver after a delivery failed: the job has ended for good.
pub open spec fn undelivered<S>(
    receiver: ReceiverModel<S>,
    at: int,
    class: ErrorClass,
    duration: Duration,
) -> ReceiverModel<S> {
    let job = receiver.jobs[at];
    ended(
        receiver,
        at,
        scheduler::stopped(job.schedule),
        metrics::with_failure(job.metrics, class, duration),
    )
}

/// Whether a result is that of mapping the first undelivered batch in the job's context.
pub open spec fn maps_first<S>(
    result: Result<LogsData, otlp::MappingFailure>,
    receiver: ReceiverModel<S>,
    delivery: Delivery,
) -> bool {
    let job = receiver.jobs[delivery.job_index as int];
    let batch = delivery.batches@[0];
    exists|mapping: OtlpMapping<'_>|
        mapping_of(
            mapping,
            receiver.system,
            receiver.attributes,
            job,
            delivery.observed_time_unix_nano,
        ) && #[trigger] maps_batch(result, batch, mapping)
}

/// Whether a result is that of mapping a batch.
pub open spec fn maps_batch(
    result: Result<LogsData, otlp::MappingFailure>,
    batch: RowBatch,
    mapping: OtlpMapping<'_>,
) -> bool {
    let names = otlp::mapped_names(*mapping.output);
    let known = forall|i: int|
        0 <= i < names.len() ==> otlp::has_column(batch.columns@, #[trigger] names[i]);
    match result {
        Ok(logs) => known && otlp::logs_batch(logs, batch.rows@, batch.columns@, mapping),
        Err(failure) => if known {
            otlp::fails_batch(failure, batch.rows@, batch.columns@, mapping)
        } else {
            exists|at: int| #[trigger]
                otlp::is_first_unknown(batch.columns@, names, at) && failure
                    == otlp::MappingFailure::UnknownColumn(names[at])
        },
    }
}

/// Whether a step is the next of a delivery: the logs of its first batch, or its end, or
/// what a row that cannot be mapped leads to by the query's policy.
pub open spec fn next_of<S>(
    step: DeliveryStep,
    before: ReceiverModel<S>,
    after: ReceiverModel<S>,
    delivery: Delivery,
    rest: Delivery,
    now: nat,
) -> bool {
    let at = delivery.job_index as int;
    let job = before.jobs[at];
    if delivery.batches@.len() == 0 {
        &&& step is Finished
        &&& rest == delivery
        &&& after == delivered(
            before,
            at,
            delivery.row_count as nat,
            delivery.normalized_bytes,
            delivery.duration,
            now,
        )
    } else {
        &&& rest.batches@ == delivery.batches@.skip(1)
        &&& rest == (Delivery { batches: rest.batches, ..delivery })
        &&& match step {
            DeliveryStep::Send(logs) => after == before && maps_first(Ok(logs), before, delivery),
            DeliveryStep::Finished => false,
            DeliveryStep::QueryStopped => {
                &&& job.query.error_policy is StopQuery
                &&& after == undelivered(before, at, ErrorClass::Conversion, delivery.duration)
                &&& exists|failure: otlp::MappingFailure| #[trigger]
                    maps_first::<S>(Err(failure), before, delivery)
            },
            DeliveryStep::Fail(failure) => {
                &&& job.query.error_policy is StopReceiver
                &&& after == undelivered(before, at, ErrorClass::Conversion, delivery.duration)
                &&& reports(
                    failure,
                    job.query.name@,
                    ErrorClass::Conversion,
                    "database row failed the configured OTLP mapping"@,
                )
                &&& exists|failure: otlp::MappingFailure| #[trigger]
                    maps_first::<S>(Err(failure), before, delivery)
            },
        }
    }
}

impl<S> DatabaseReceiver<S> {
    /// Settles a completed poll, spreading a retry at random.
    pub fn handle_completion(
        &mut self,
        job_index: usize,
        outcome: PollOutcome<S>,
        duration: Duration,
        observed_time_unix_nano: u64,
        now: Instant,
    ) -> (r: CompletionStep<S>)
        requires
            valid(old(self)@),
            is_running(old(self)@, job_index as int),
            time::has_room(now),
        ensures
            exists|random: u64|
                final(self)@ == #[trigger] settled(
                    old(self)@,
                    job_index as int,
                    outcome,
                    duration,
                    now@,
                    random,
                ),
            if outcome is Page {
                settling(final(self)@) && is_running(final(self)@, job_index as int)
            } else {
                valid(final(self)@)
            },
            r.close == to_close(outcome),
            follows(
                r.next,
                old(self)@,
                job_index as int,
                outcome,
                duration,
                observed_time_unix_nano,
            ),
            final(self).user() == old(self).user(),
            final(self).password_variable() == old(self).password_variable(),
    {
        let random: u64 = random_number();
        proof {
            law_completion_keeps_the_accounts(
                self@,
                job_index as int,
                outcome,
                duration,
                now@,
                random,
            );
        }
        let ghost before = self@;
        let r = self.settle_completion(
            job_index,
            outcome,
            duration,
            observed_time_unix_nano,
            now,
            random,
        );
        assert(self@ == settled(before, job_index as int, outcome, duration, now@, random));
        r
    }

    /// Takes the next step of a delivery: maps its first batch, or ends it.
    pub fn deliver_next(&mut self, delivery: &mut Delivery, now: Instant) -> (r: DeliveryStep)
        requires
            settling(old(self)@),
            is_running(old(self)@, old(delivery).job_index as int),
            time::has_room(now),
        ensures
            next_of(r, old(self)@, final(self)@, *old(delivery), *final(delivery), now@),
            if r is Send {
                settling(final(self)@) && is_running(final(self)@, old(delivery).job_index as int)
            } else {
                valid(final(self)@)
            },
            final(self).user() == old(self).user(),
            final(self).password_variable() == old(self).password_variable(),
    {
        let ghost before = self@;
        let ghost whole = *delivery;
        let job_index: usize = delivery.job_index;
        let ghost at = job_index as int;
        assert(self@.jobs[at] == self.jobs@[at]@);
        if delivery.batches.len() == 0 {
            self.jobs[job_index].metrics.poll_completed(
                delivery.row_count,
                delivery.normalized_bytes,
                delivery.duration,
            );
            let reservation: u64 = self.jobs[job_index].schedule.complete(now);
            self.admission.release(reservation);
            proof {
                let wanted = delivered(
                    before,
                    at,
                    whole.row_count as nat,
                    whole.normalized_bytes,
                    whole.duration,
                    now@,
                );
                assert(self@.jobs =~= wanted.jobs);
                law_ending_a_job_returns_its_reservation(
                    before,
                    at,
                    scheduler::completed(before.jobs[at].schedule, now@),
                    metrics::with_completion(
                        before.jobs[at].metrics,
                        whole.row_count as nat,
                        whole.normalized_bytes,
                        whole.duration,
                    ),
                );
            }
            return DeliveryStep::Finished;
        }
        let batch = delivery.batches.remove(0);
        assert(batch == whole.batches@[0]);
        assert(delivery.batches@ =~= whole.batches@.skip(1));
        let mapping = OtlpMapping {
            system: self.system,
            query_name: self.jobs[job_index].query.name.as_str(),
            output: &self.jobs[job_index].query.output,
            resource_attributes: &self.resource_attributes,
            observed_time_unix_nano: delivery.observed_time_unix_nano,
        };
        let ghost context = mapping;
        assert(mapping_of(
            context,
            before.system,
            before.attributes,
            before.jobs[at],
            whole.observed_time_unix_nano,
        ));
        match batch_to_logs(batch, mapping) {
            Ok(logs) => {
                assert(maps_batch(Ok(logs), whole.batches@[0], context));
                DeliveryStep::Send(logs)
            },
            Err(error) => {
                assert(maps_batch(Err(error@), whole.batches@[0], context));
                assert(maps_first::<S>(Err(error@), before, whole));
                proof {
                    law_ending_a_job_returns_its_reservation(
                        before,
                        at,
                        scheduler::stopped(before.jobs[at].schedule),
                        metrics::with_failure(
                            before.jobs[at].metrics,
                            ErrorClass::Conversion,
                            whole.duration,
                        ),
                    );
                }
                self.record_failure(job_index, ErrorClass::Conversion, delivery.duration);
                self.stop_job(job_index);
                assert(self@.jobs =~= undelivered(
                    before,
                    at,
                    ErrorClass::Conversion,
                    whole.duration,
                ).jobs);
                assert(self@.jobs[at].query == before.jobs[at].query);
                if self.query(job_index).error_policy == ErrorPolicy::StopQuery {
                    DeliveryStep::QueryStopped
                } else {
                    DeliveryStep::Fail(mapping_error(self.query(job_index).name.as_str()))
                }
            },
        }
    }

    /// Takes note that the logs of one batch were admitted downstream.
    pub fn batch_delivered(&mut self, job_index: usize)
        requires
            job_index < old(self)@.jobs.len(),
        ensures
            final(self)@ == (ReceiverModel {
                jobs: old(self)@.jobs.update(
                    job_index as int,
                    JobModel {
                        metrics: metrics::with_batch(old(self)@.jobs[job_index as int].metrics),
                        ..old(self)@.jobs[job_index as int]
                    },
                ),
                ..old(self)@
            }),
            settling(old(self)@) && is_running(old(self)@, job_index as int) ==> settling(
                final(self)@,
            ) && is_running(final(self)@, job_index as int),
            final(self).user() == old(self).user(),
            final(self).password_variable() == old(self).password_variable(),
    {
        let ghost before = self@;
        let ghost at = job_index as int;
        self.jobs[job_index].metrics.batch_sent();
        let ghost job = JobModel {
            metrics: metrics::with_batch(before.jobs[at].metrics),
            ..before.jobs[at]
        };
        assert(self@.jobs =~= before.jobs.update(at, job));
        proof {
            lemma_accounts_update(before.jobs, at, job);
        }
    }

    /// Takes note that the logs of a batch were refused downstream, which ends the job.
    pub fn batch_refused(&mut self, delivery: &Delivery)
        requires
            settling(old(self)@),
            is_running(old(self)@, delivery.job_index as int),
        ensures
            final(self)@ == undelivered(
                old(self)@,
                delivery.job_index as int,
                ErrorClass::Downstream,
                delivery.duration,
            ),
            valid(final(self)@),
            final(self).user() == old(self).user(),
            final(self).password_variable() == old(self).password_variable(),
    {
        let ghost before = self@;
        let ghost at = delivery.job_index as int;
        proof {
            law_ending_a_job_returns_its_reservation(
                before,
                at,
                scheduler::stopped(before.jobs[at].schedule),
                metrics::with_failure(
                    before.jobs[at].metrics,
                    ErrorClass::Downstream,
                    delivery.duration,
                ),
            );
        }
        self.record_failure(delivery.job_index, ErrorClass::Downstream, delivery.duration);
        self.stop_job(delivery.job_index);
        assert(self@.jobs =~= undelivered(
            before,
            at,
            ErrorClass::Downstream,
            delivery.duration,
        ).jobs);
    }

    /// Takes note, while shutting down, that a running poll came back: its connection is
    /// gone and its job has ended.
    pub fn poll_abandoned(&mut self, job_index: usize)
        requires
            valid(old(self)@),
            is_running(old(self)@, job_index as int),
        ensures
            final(self)@ == ended(
                disconnected(old(self)@),
                job_index as int,
                scheduler::stopped(old(self)@.jobs[job_index as int].schedule),
                old(self)@.jobs[job_index as int].metrics,
            ),
            valid(final(self)@),
            final(self).user() == old(self).user(),
            final(self).password_variable() == old(self).password_variable(),
    {
        let ghost before = self@;
        let ghost at = job_index as int;
        proof {
            lemma_running_positive(before.jobs, at);
            law_ending_a_job_returns_its_reservation(
                disconnected(before),
                at,
                scheduler::stopped(before.jobs[at].schedule),
                before.jobs[at].metrics,
            );
        }
        self.drop_connection();
        self.stop_job(job_index);
    }

    /// Hands out the first idle session, to be closed; its connection no longer counts.
    pub fn close_idle(&mut self) -> (r: Option<S>)
        requires
            valid(old(self)@),
        ensures
            valid(final(self)@),
            match r {
                Some(session) => {
                    &&& old(self)@.idle.len() > 0
                    &&& session == old(self)@.idle[0]
                    &&& final(self)@ == disconnected(
                        ReceiverModel { idle: old(self)@.idle.skip(1), ..old(self)@ },
                    )
                },
                None => old(self)@.idle.len() == 0 && final(self)@ == old(self)@,
            },
            final(self).user() == old(self).user(),
            final(self).password_variable() == old(self).password_variable(),
    {
        let ghost before = self@;
        if self.idle_sessions.len() == 0 {
            return None;
        }
        let session = self.idle_sessions.remove(0);
        self.drop_connection();
        assert(self@.idle =~= before.idle.skip(1));
        Some(session)
    }

    /// Whether another session has to be opened before polling starts.
    pub fn needs_connection(&self, min_connections: usize) -> (found: bool)
        ensures
            found == (self@.slots < min_connections),
    {
        self.connection_slots < min_connections
    }

    /// Takes in a session that was opened before polling starts.
    pub fn connection_opened(&mut self, session: S)
        requires
            valid(old(self)@),
            old(self)@.slots < usize::MAX,
        ensures
            valid(final(self)@),
            final(self)@ == (ReceiverModel {
                slots: old(self)@.slots + 1,
                ..reusing(old(self)@, session)
            }),
            final(self).user() == old(self).user(),
            final(self).password_variable() == old(self).password_variable(),
    {
        self.idle_sessions.push(session);
        self.connection_slots += 1;
    }

    /// The metrics of a job since its last report.
    pub fn report_job(&mut self, job_index: usize) -> (r: metrics::MetricsReport)
        requires
            job_index < old(self)@.jobs.len(),
        ensures
            tells(r, old(self)@.jobs[job_index as int].metrics),
            final(self)@ == (ReceiverModel {
                jobs: old(self)@.jobs.update(
                    job_index as int,
                    reported(old(self)@.jobs[job_index as int]),
                ),
                ..old(self)@
            }),
            valid(old(self)@) ==> valid(final(self)@),
            final(self).user() == old(self).user(),
            final(self).password_variable() == old(self).password_variable(),
    {
        let ghost before = self@;
        let ghost at = job_index as int;
        let r = self.jobs[job_index].metrics.report();
        let ghost job = reported(before.jobs[at]);
        assert(self@.jobs =~= before.jobs.update(at, job));
        proof {
            lemma_accounts_update(before.jobs, at, job);
        }
        r
    }

    /// The metrics of every job since its last report, in the order of the jobs.
    pub fn report_jobs(&mut self) -> (r: Vec<metrics::MetricsReport>)
        ensures
            r@.len() == old(self)@.jobs.len(),
            forall|i: int|
                0 <= i < r@.len() ==> tells(#[trigger] r@[i], old(self)@.jobs[i].metrics),
            final(self)@ == all_reported(old(self)@),
            valid(old(self)@) ==> valid(final(self)@),
            final(self).user() == old(self).user(),
            final(self).password_variable() == old(self).password_variable(),
    {
        let ghost before = self@;
        let mut r: Vec<metrics::MetricsReport> = Vec::new();
        let mut i: usize = 0;
        while i < self.jobs.len()
            invariant
                before == old(self)@,
                i <= self@.jobs.len(),
                r@.len() == i,
                self@ == (ReceiverModel { jobs: self@.jobs, ..before }),
                self@.jobs.len() == before.jobs.len(),
                forall|k: int|
                    0 <= k < i ==> (#[trigger] self@.jobs[k]) == reported(before.jobs[k]),
                forall|k: int|
                    i <= k < before.jobs.len() ==> (#[trigger] self@.jobs[k]) == before.jobs[k],
                forall|k: int| 0 <= k < i ==> tells(#[trigger] r@[k], before.jobs[k].metrics),
                valid(before) ==> valid(self@),
                self.user() == old(self).user(),
                self.password_variable() == old(self).password_variable(),
            decreases self.jobs.len() - i,
        {
            let ghost earlier = self@;
            let report = self.report_job(i);
            proof {
                assert(earlier.jobs[i as int] == before.jobs[i as int]);
                assert(self@.jobs =~= earlier.jobs.update(i as int, reported(before.jobs[i as int])));
            }
            r.push(report);
            i += 1;
        }
        assert(self@.jobs =~= all_reported(before).jobs);
        r
    }

    /// Takes in what the pipeline asks of a running receiver, and says what is to be done.
    pub fn handle_control(&mut self, event: ControlEvent) -> (action: ControlAction)
        ensures
            action == answer(event),
            final(self)@ == (match event {
                ControlEvent::MemoryPressureChanged { shed } => (ReceiverModel {
                    shedding: shed,
                    ..old(self)@
                }),
                _ => old(self)@,
            }),
            valid(old(self)@) ==> valid(final(self)@),
            final(self).user() == old(self).user(),
            final(self).password_variable() == old(self).password_variable(),
    {
        match event {
            ControlEvent::CollectTelemetry => ControlAction::Report,
            ControlEvent::MemoryPressureChanged { shed } => {
                self.set_shedding(shed);
                ControlAction::Continue
            },
            ControlEvent::DrainIngress => ControlAction::Stop { notify_drained: true },
            ControlEvent::Shutdown => ControlAction::Stop { notify_drained: false },
            ControlEvent::Other => ControlAction::Continue,
        }
    }
}

/// Whether a report tells the metrics of a job.
pub open spec fn tells(report: metrics::MetricsReport, model: MetricsModel) -> bool {
    &&& report.attributes.database_system@ == model.database_system
    &&& report.attributes.query_name@ == model.query_name
    &&& report.poll_durations@ == model.durations
    &&& report.polls_started == model.polls_started
    &&& report.polls_completed == model.polls_completed
    &&& report.rows_read == model.rows_read
    &&& report.bytes_read == model.bytes_read
    &&& report.batches_sent == model.batches_sent
    &&& report.failures@ == model.failures
}

/// A job after a report of its metrics: counts go on, durations start anew.
pub open spec fn reported(job: JobModel) -> JobModel {
    JobModel { metrics: MetricsModel { durations: Seq::empty(), ..job.metrics }, ..job }
}

/// A receiver after a report of every job.
pub open spec fn all_reported<S>(model: ReceiverModel<S>) -> ReceiverModel<S> {
    ReceiverModel { jobs: model.jobs.map_values(|job: JobModel| reported(job)), ..model }
}

/// What the pipeline asks of a running receiver.
#[derive(Clone, Copy, Debug, PartialEq, Eq, Structural)]
pub enum ControlEvent {
    /// Metrics are collected.
    CollectTelemetry,
    /// Memory became scarce, or is no longer.
    MemoryPressureChanged {
        /// Whether new work is to be refused.
        shed: bool,
    },
    /// No more data is to come in.
    DrainIngress,
    /// The receiver is to end.
    Shutdown,
    /// Anything else.
    Other,
}

/// What is to be done about it.
#[derive(Clone, Copy, Debug, PartialEq, Eq, Structural)]
pub enum ControlAction {
    /// Report the metrics and go on.
    Report,
    /// Go on.
    Continue,
    /// Stop polling, and tell the pipeline that the receiver is drained where it asked for it.
    Stop {
        /// Whether the pipeline waits for the receiver to be drained.
        notify_drained: bool,
    },
}

/// What is to be done about an event.
pub open spec fn answer(event: ControlEvent) -> ControlAction {
    match event {
        ControlEvent::CollectTelemetry => ControlAction::Report,
        ControlEvent::MemoryPressureChanged { .. } => ControlAction::Continue,
        ControlEvent::DrainIngress => ControlAction::Stop { notify_drained: true },
        ControlEvent::Shutdown => ControlAction::Stop { notify_drained: false },
        ControlEvent::Other => ControlAction::Continue,
    }
}

/// Checks, before polling starts, that the adapter can do all that polling asks of it.
pub fn check_capabilities(capabilities: driver::DriverCapabilities) -> (r: Result<
    (),
    ReceiverFailure,
>)
    ensures
        r is Ok <==> driver::is_sufficient(capabilities),
        r matches Err(failure) ==> reports(
            failure,
            "<startup>"@,
            ErrorClass::Configuration,
            "adapter does not provide required cancellation, metadata, and bind capabilities"@,
        ),
{
    if capabilities.sufficient() {
        Ok(())
    } else {
        Err(
            database_error(
                "<startup>",
                ErrorClass::Configuration,
                Some(
                    owned(
                        "adapter does not provide required cancellation, metadata, and bind capabilities",
                    ),
                ),
            ),
        )
    }
}

/// Reports credentials that could not be resolved before polling starts.
pub fn startup_credential_failure(error: &CredentialError) -> (r: ReceiverFailure)
    ensures
        reports(
            r,
            "<startup>"@,
            ErrorClass::Authentication,
            driver::credential_message(*error),
        ),
{
    database_error("<startup>", ErrorClass::Authentication, Some(error.message()))
}

/// Reports a session that could not be opened before polling starts.
pub fn startup_connect_failure(class: ErrorClass) -> (r: ReceiverFailure)
    ensures
        reports(r, "<startup>"@, class, Seq::empty()),
{
    database_error("<startup>", class, None)
}

/// The bounds of an execution: as many rows as the query asks for, a batch of no more than
/// those, and an equal share of the bytes in flight, so that all shares together fit and no
/// larger equal shares would.
pub proof fn law_executions_share_the_budget(limits: LimitsConfig, max_rows: usize)
    requires
        limits.max_concurrent_queries > 0,
    ensures
        ({
            let bounds = limits_of(limits, max_rows);
            let share = bounds.max_page_bytes as int;
            let total = config::in_flight_bytes(limits) as int;
            &&& bounds.max_rows == max_rows
            &&& bounds.max_batch_rows <= max_rows && bounds.max_batch_rows <= limits.max_batch_rows
            &&& bounds.max_batch_rows == max_rows || bounds.max_batch_rows == limits.max_batch_rows
            &&& bounds.max_batch_bytes == config::batch_bytes(limits)
            &&& bounds.fetch_size == limits.fetch_size
            &&& share * limits.max_concurrent_queries <= total
            &&& (share + 1) * limits.max_concurrent_queries > total
            &&& share == page_bytes(limits)
        }),
{
    let total = config::in_flight_bytes(limits) as int;
    let many = limits.max_concurrent_queries as int;
    let share = total / many;
    assert(0 <= share <= total && share * many <= total && (share + 1) * many > total)
        by (nonlinear_arith)
        requires
            share == total / many,
            total >= 0,
            many > 0,
    ;
}

/// The job that is started first is the first that neither runs nor is stopped and whose time
/// has come; there is none exactly when no job is such.
pub proof fn law_first_due_job_is_the_first(jobs: Seq<JobModel>, now: nat)
    ensures
        first_due(jobs, now) matches Some(at) ==> {
            &&& at < jobs.len()
            &&& !jobs[at as int].schedule.running && !jobs[at as int].schedule.stopped
            &&& jobs[at as int].schedule.next_due <= now
            &&& forall|i: int|
                0 <= i < at ==> (#[trigger] jobs[i]).schedule.running || jobs[i].schedule.stopped
                    || jobs[i].schedule.next_due > now
        },
        first_due(jobs, now) is None <==> forall|i: int|
            0 <= i < jobs.len() ==> (#[trigger] jobs[i]).schedule.running
                || jobs[i].schedule.stopped || jobs[i].schedule.next_due > now,
    decreases jobs.len(),
{
    if jobs.len() > 0 {
        let less = jobs.drop_last();
        let last = jobs.len() - 1;
        law_first_due_job_is_the_first(less, now);
        assert forall|i: int| 0 <= i < last implies less[i] == #[trigger] jobs[i] by {}
        assert(jobs[last] == jobs.last());
        if first_due(less, now) is None {
            assert forall|i: int| 0 <= i < last implies (#[trigger] jobs[i]).schedule.running
                || jobs[i].schedule.stopped || jobs[i].schedule.next_due > now by {
                assert(less[i] == jobs[i]);
            }
        } else {
            let at = first_due(less, now)->0 as int;
            assert(less[at] == jobs[at]);
            assert forall|i: int| 0 <= i < at implies (#[trigger] jobs[i]).schedule.running
                || jobs[i].schedule.stopped || jobs[i].schedule.next_due > now by {
                assert(less[i] == jobs[i]);
            }
        }
    }
}

/// What is admitted is the first due job alone: it runs, with a share of the bytes reserved
/// and one more poll started, in the most recently idle session or, where none is idle, over a
/// connection more. Nothing else of the receiver changes.
pub proof fn law_admission_starts_one_job<S>(
    receiver: ReceiverModel<S>,
    now: nat,
    max_connections: nat,
)
    requires
        valid(receiver),
        receiver.jobs.len() <= usize::MAX,
    ensures
        admit_one(receiver, now, max_connections) matches Some((after, admission)) ==> {
            let at = admission.job_index as int;
            &&& !receiver.shedding
            &&& first_due(receiver.jobs, now) == Some(at as nat)
            &&& after.jobs.len() == receiver.jobs.len()
            &&& forall|i: int|
                0 <= i < receiver.jobs.len() && i != at ==> after.jobs[i] == #[trigger] receiver.jobs[i]
            &&& after.jobs[at].schedule.running
            &&& after.jobs[at].schedule.reserved == page_bytes(receiver.limits)
            &&& after.jobs[at].schedule.next_due == receiver.jobs[at].schedule.next_due
            &&& after.jobs[at].schedule.attempt == receiver.jobs[at].schedule.attempt
            &&& after.jobs[at].query == receiver.jobs[at].query
            &&& after.jobs[at].metrics == metrics::with_start(receiver.jobs[at].metrics)
            &&& after.admission.active == receiver.admission.active + 1
            &&& after.admission.active <= receiver.limits.max_concurrent_queries
            &&& after.admission.reserved == receiver.admission.reserved + page_bytes(
                receiver.limits,
            )
            &&& after.admission.reserved <= config::in_flight_bytes(receiver.limits)
            &&& after.system == receiver.system && after.attributes == receiver.attributes
                && after.limits == receiver.limits && after.retry == receiver.retry
                && after.shedding == receiver.shedding
            &&& receiver.idle.len() > 0 ==> admission.session == Some(
                receiver.idle[receiver.idle.len() - 1],
            ) && after.idle == receiver.idle.take(receiver.idle.len() - 1) && after.slots
                == receiver.slots
            &&& receiver.idle.len() == 0 ==> admission.session is None && after.idle.len() == 0
                && after.slots == receiver.slots + 1 && after.slots <= max_connections
            &&& admission.limits == limits_of(receiver.limits, receiver.jobs[at].query.max_rows)
        },
{
    law_first_due_job_is_the_first(receiver.jobs, now);
    if receiver.idle.len() > 0 {
        assert(receiver.idle.drop_last() =~= receiver.idle.take(receiver.idle.len() - 1));
    }
}

/// A job is admitted whenever ingress is open, a slot is free, some job is due, a session is
/// idle or may be opened, and the bytes of a page are free.
pub proof fn law_due_jobs_are_admitted<S>(
    receiver: ReceiverModel<S>,
    now: nat,
    max_connections: nat,
    at: int,
)
    requires
        !receiver.shedding,
        receiver.admission.active < receiver.admission.max_queries,
        0 <= at < receiver.jobs.len(),
        !receiver.jobs[at].schedule.running && !receiver.jobs[at].schedule.stopped,
        receiver.jobs[at].schedule.next_due <= now,
        receiver.idle.len() > 0 || receiver.slots < max_connections,
        receiver.admission.reserved + page_bytes(receiver.limits) <= receiver.admission.max_bytes,
    ensures
        admit_one(receiver, now, max_connections) is Some,
{
    law_first_due_job_is_the_first(receiver.jobs, now);
}

/// The deadline to wait for is that of a job that waits, and no job that waits is due before
/// it.
pub proof fn law_deadline_is_the_earliest(jobs: Seq<JobModel>, moment: nat, now: nat)
    requires
        is_earliest(jobs, moment),
    ensures
        now < moment <==> first_due(jobs, now) is None,
        exists|i: int|
            0 <= i < jobs.len() && !(#[trigger] jobs[i]).schedule.running
                && !jobs[i].schedule.stopped && jobs[i].schedule.next_due == moment,
{
    law_first_due_job_is_the_first(jobs, now);
    let i = choose|i: int|
        0 <= i < jobs.len() && scheduler::is_waiting((#[trigger] jobs[i]).schedule)
            && jobs[i].schedule.next_due == moment;
    assert(!jobs[i].schedule.running && !jobs[i].schedule.stopped && jobs[i].schedule.next_due
        == moment);
    if now < moment {
        assert forall|k: int| 0 <= k < jobs.len() implies (#[trigger] jobs[k]).schedule.running
            || jobs[k].schedule.stopped || jobs[k].schedule.next_due > now by {
            if scheduler::is_waiting(jobs[k].schedule) {
                assert(moment <= jobs[k].schedule.next_due);
            }
        }
    }
}

/// The session of a completed poll is kept or closed, never both and never neither: it is kept
/// as the last idle one exactly when it may be reused, and otherwise closed, and then its
/// connection no longer counts. No other idle session is touched.
pub proof fn law_sessions_are_kept_or_closed<S>(
    receiver: ReceiverModel<S>,
    at: int,
    outcome: PollOutcome<S>,
    duration: Duration,
    now: nat,
    random: u64,
)
    requires
        receiver.slots > 0,
    ensures
        ({
            let after = settled(receiver, at, outcome, duration, now, random);
            match outcome {
                PollOutcome::Page { session, expired, page } => if expired {
                    to_close(outcome) == Some(session) && after.idle == receiver.idle
                        && after.slots == receiver.slots - 1
                } else {
                    to_close(outcome) is None && after.idle == receiver.idle + seq![session]
                        && after.slots == receiver.slots
                },
                PollOutcome::Credentials { error } => to_close(outcome) is None && after.idle
                    == receiver.idle && after.slots == receiver.slots - 1,
                PollOutcome::Adapter { session, disposition } => match session {
                    None => to_close(outcome) is None && after.idle == receiver.idle
                        && after.slots == receiver.slots - 1,
                    Some(session) => if disposition.session == SessionDisposition::Reuse {
                        to_close(outcome) is None && after.idle == receiver.idle + seq![session]
                            && after.slots == receiver.slots
                    } else {
                        to_close(outcome) == Some(session) && after.idle == receiver.idle
                            && after.slots == receiver.slots - 1
                    },
                },
            }
        }),
{
    match outcome {
        PollOutcome::Page { session, expired, page } => {
            assert(receiver.idle.push(session) =~= receiver.idle + seq![session]);
        },
        PollOutcome::Credentials { error } => {},
        PollOutcome::Adapter { session, disposition } => {
            if session is Some {
                assert(receiver.idle.push(session->0) =~= receiver.idle + seq![session->0]);
            }
        },
    }
}

/// A failed poll ends its job's execution and gives back what it had reserved: the job is
/// tried again exactly when the failure can pass and retries are on, and is stopped for good
/// otherwise. A page leaves its job running until it is delivered. No other job is touched, and
/// neither are the receiver's settings.
pub proof fn law_failures_are_retried_or_final<S>(
    receiver: ReceiverModel<S>,
    at: int,
    outcome: PollOutcome<S>,
    duration: Duration,
    now: nat,
    random: u64,
)
    requires
        valid(receiver),
        is_running(receiver, at),
    ensures
        ({
            let after = settled(receiver, at, outcome, duration, now, random);
            let job = after.jobs[at];
            &&& after.jobs.len() == receiver.jobs.len()
            &&& forall|i: int|
                0 <= i < receiver.jobs.len() && i != at ==> after.jobs[i] == #[trigger] receiver.jobs[i]
            &&& job.query == receiver.jobs[at].query
            &&& after.system == receiver.system && after.attributes == receiver.attributes
                && after.limits == receiver.limits && after.retry == receiver.retry
                && after.shedding == receiver.shedding
            &&& after.admission.max_queries == receiver.admission.max_queries
                && after.admission.max_bytes == receiver.admission.max_bytes
            &&& match outcome {
                PollOutcome::Page { session, expired, page } => job == receiver.jobs[at]
                    && after.admission == receiver.admission,
                PollOutcome::Credentials { error } => job.schedule.stopped && !job.schedule.running
                    && job.schedule.reserved == 0 && after.admission.active + 1
                    == receiver.admission.active && after.admission.reserved
                    + receiver.jobs[at].schedule.reserved == receiver.admission.reserved
                    && job.metrics == metrics::with_failure(
                    receiver.jobs[at].metrics,
                    ErrorClass::Authentication,
                    duration,
                ),
                PollOutcome::Adapter { session, disposition } => {
                    &&& !job.schedule.running && job.schedule.reserved == 0
                    &&& after.admission.active + 1 == receiver.admission.active
                    &&& after.admission.reserved + receiver.jobs[at].schedule.reserved
                        == receiver.admission.reserved
                    &&& job.metrics == metrics::with_failure(
                        receiver.jobs[at].metrics,
                        disposition.class,
                        duration,
                    )
                    &&& !receiver.jobs[at].schedule.stopped ==> (job.schedule.stopped <==> !(
                    disposition.retryable && receiver.retry.enabled))
                    &&& disposition.retryable && receiver.retry.enabled ==> now
                        <= job.schedule.next_due <= now + receiver.jobs[at].schedule.interval
                },
            }
        }),
{
    lemma_running_positive(receiver.jobs, at);
    match outcome {
        PollOutcome::Adapter { session, disposition } => {
            scheduler::law_retry_waits_within_the_interval(
                receiver.jobs[at].schedule,
                now,
                receiver.retry,
                random,
            );
        },
        _ => {},
    }
}

/// What follows a poll: a page is delivered whole, with its own counts; a failure that is
/// retried lets polling go on; any other ends the query where its policy is to stop the query
/// and the receiver where it is not, and credentials that cannot be had always end the
/// receiver.
pub proof fn law_steps_after_a_poll<S>(
    next: AfterPoll,
    receiver: ReceiverModel<S>,
    at: int,
    outcome: PollOutcome<S>,
    duration: Duration,
    observed: u64,
)
    requires
        0 <= at <= usize::MAX,
        follows(next, receiver, at, outcome, duration, observed),
    ensures
        match outcome {
            PollOutcome::Page { session, expired, page } => {
                &&& next matches AfterPoll::Deliver(delivery)
                &&& delivery.job_index == at
                &&& delivery.batches == page.batches
                &&& delivery.row_count == page.row_count
                &&& delivery.normalized_bytes == page.normalized_bytes
                &&& delivery.duration == duration
                &&& delivery.observed_time_unix_nano == observed
            },
            PollOutcome::Credentials { error } => next is Fail,
            PollOutcome::Adapter { session, disposition } => {
                &&& next is Continue <==> disposition.retryable && receiver.retry.enabled
                &&& next is QueryStopped <==> !(disposition.retryable && receiver.retry.enabled)
                    && receiver.jobs[at].query.error_policy == ErrorPolicy::StopQuery
                &&& next is Fail <==> !(disposition.retryable && receiver.retry.enabled)
                    && receiver.jobs[at].query.error_policy == ErrorPolicy::StopReceiver
                &&& next matches AfterPoll::QueryStopped { class } ==> class == disposition.class
                &&& next matches AfterPoll::Fail(failure) ==> failure.source_detail@.len() == 0
            },
        },
{
}

/// A page that was delivered completes its job: one more poll is counted, with its rows and
/// bytes, what was reserved is given back, and the job is due an interval later and from the
/// first attempt again. A delivery that fails stops the job for good.
pub proof fn law_deliveries_end_their_job<S>(
    receiver: ReceiverModel<S>,
    at: int,
    rows: nat,
    bytes: u64,
    class: ErrorClass,
    duration: Duration,
    now: nat,
)
    requires
        settling(receiver),
        is_running(receiver, at),
    ensures
        ({
            let after = delivered(receiver, at, rows, bytes, duration, now);
            let job = after.jobs[at];
            &&& !job.schedule.running && job.schedule.reserved == 0 && job.schedule.attempt == 0
            &&& job.schedule.next_due - now == receiver.jobs[at].schedule.interval
            &&& job.schedule.stopped == receiver.jobs[at].schedule.stopped
            &&& job.query == receiver.jobs[at].query
            &&& job.metrics == metrics::with_completion(
                receiver.jobs[at].metrics,
                rows,
                bytes,
                duration,
            )
            &&& after.admission.active + 1 == receiver.admission.active
            &&& after.admission.reserved + receiver.jobs[at].schedule.reserved
                == receiver.admission.reserved
            &&& after.idle == receiver.idle && after.slots == receiver.slots
            &&& forall|i: int|
                0 <= i < receiver.jobs.len() && i != at ==> after.jobs[i] == #[trigger] receiver.jobs[i]
        }),
        ({
            let after = undelivered(receiver, at, class, duration);
            let job = after.jobs[at];
            &&& !job.schedule.running && job.schedule.reserved == 0 && job.schedule.stopped
            &&& job.query == receiver.jobs[at].query
            &&& job.metrics == metrics::with_failure(receiver.jobs[at].metrics, class, duration)
            &&& after.admission.active + 1 == receiver.admission.active
            &&& after.admission.reserved + receiver.jobs[at].schedule.reserved
                == receiver.admission.reserved
            &&& after.idle == receiver.idle && after.slots == receiver.slots
            &&& forall|i: int|
                0 <= i < receiver.jobs.len() && i != at ==> after.jobs[i] == #[trigger] receiver.jobs[i]
        }),
{
    lemma_running_positive(receiver.jobs, at);
}

/// How many jobs run, and how much they reserve, is counted job by job: one more job adds
/// itself and nothing else.
pub proof fn law_accounts_count_every_job(jobs: Seq<JobModel>, job: JobModel)
    ensures
        running(Seq::empty()) == 0,
        reserved(Seq::empty()) == 0,
        running(jobs.push(job)) - running(jobs) == if job.schedule.running {
            1int
        } else {
            0int
        },
        reserved(jobs.push(job)) - reserved(jobs) == job.schedule.reserved,
{
    assert(jobs.push(job).drop_last() =~= jobs);
}

/// Polling ends exactly when the pipeline asks to drain or to shut down, and only draining is
/// answered; metrics are reported exactly when they are collected.
pub proof fn law_control_stops_only_when_asked(event: ControlEvent)
    ensures
        answer(event) is Stop <==> event is DrainIngress || event is Shutdown,
        answer(event) matches ControlAction::Stop { notify_drained } ==> (notify_drained
            <==> event is DrainIngress),
        answer(event) is Report <==> event is CollectTelemetry,
{
}

/// A failure is a configuration's exactly when the configuration or the credentials are wrong,
/// a transport's when a connection, a deadline, a query or the pipeline failed, and otherwise
/// neither.
pub proof fn law_failures_are_classified(class: ErrorClass)
    ensures
        kind_of(class) is Configuration <==> class is Configuration || class is Authentication,
        kind_of(class) is Transport <==> class is TransientTransport || class is TimeoutCancel
            || class is Query || class is Downstream,
        kind_of(class) is Other <==> class is Conversion || class is Internal,
{
}

/// A report takes the durations out and leaves every count as it was.
pub proof fn law_reports_keep_the_counts(job: JobModel)
    ensures
        reported(job).query == job.query,
        reported(job).schedule == job.schedule,
        reported(job).metrics.durations.len() == 0,
        reported(job).metrics.polls_started == job.metrics.polls_started,
        reported(job).metrics.polls_completed == job.metrics.polls_completed,
        reported(job).metrics.rows_read == job.metrics.rows_read,
        reported(job).metrics.bytes_read == job.metrics.bytes_read,
        reported(job).metrics.batches_sent == job.metrics.batches_sent,
        reported(job).metrics.failures == job.metrics.failures,
{
}

/// A delivery ends exactly when no batch is left, and until then each step takes the first one
/// and no other. Sending changes nothing else; a batch that cannot be mapped stops the query or
/// the receiver, whichever the query asks for.
pub proof fn law_deliveries_take_batch_after_batch<S>(
    step: DeliveryStep,
    before: ReceiverModel<S>,
    after: ReceiverModel<S>,
    delivery: Delivery,
    rest: Delivery,
    now: nat,
)
    requires
        next_of(step, before, after, delivery, rest, now),
    ensures
        step is Finished <==> delivery.batches@.len() == 0,
        !(step is Finished) ==> rest.batches@.len() + 1 == delivery.batches@.len() && forall|i: int|
            0 <= i < rest.batches@.len() ==> #[trigger] rest.batches@[i] == delivery.batches@[i + 1],
        step is Finished ==> rest.batches@ == delivery.batches@,
        rest.job_index == delivery.job_index,
        rest.row_count == delivery.row_count,
        rest.normalized_bytes == delivery.normalized_bytes,
        rest.duration == delivery.duration,
        rest.observed_time_unix_nano == delivery.observed_time_unix_nano,
        step is Send ==> after == before,
        step is QueryStopped ==> before.jobs[delivery.job_index as int].query.error_policy
            is StopQuery,
        step is Fail ==> before.jobs[delivery.job_index as int].query.error_policy is StopReceiver,
{
}

/// What a delivery sends is the logs of its first batch: a record for each of its rows, each
/// observed when the batch was, from the receiver's own database and with its attributes.
pub proof fn law_sent_logs_are_of_the_first_batch<S>(
    logs: LogsData,
    before: ReceiverModel<S>,
    after: ReceiverModel<S>,
    delivery: Delivery,
    rest: Delivery,
    now: nat,
    i: int,
)
    requires
        next_of(DeliveryStep::Send(logs), before, after, delivery, rest, now),
        0 <= i < delivery.batches@[0].rows@.len(),
    ensures
        logs.resource_logs@.len() == 1,
        logs.resource_logs@[0].resource matches Some(resource) && otlp::resource_pairs(
            before.system,
            before.attributes,
        ) == Ok::<Seq<crate::otlp::Pair>, otlp::MappingFailure>(
            crate::otlp::pairs(resource.attributes@),
        ),
        logs.resource_logs@[0].scope_logs@.len() == 1,
        logs.resource_logs@[0].scope_logs@[0].log_records@.len() == delivery.batches@[0].rows@.len(),
        logs.resource_logs@[0].scope_logs@[0].log_records@[i].observed_time_unix_nano
            == delivery.observed_time_unix_nano,
        otlp::log_of(
            delivery.batches@[0].rows@[i].values@,
            delivery.batches@[0].columns@,
            before.jobs[delivery.job_index as int].query.output,
            before.jobs[delivery.job_index as int].query.name@,
            otlp::paired(
                delivery.batches@[0].rows@[i].values@,
                delivery.batches@[0].columns@,
            ),
        ) matches Ok(log) && otlp::records(
            logs.resource_logs@[0].scope_logs@[0].log_records@[i],
            log,
            delivery.observed_time_unix_nano,
        ),
{
    let batch = delivery.batches@[0];
    let job = before.jobs[delivery.job_index as int];
    let mapping = choose|mapping: OtlpMapping<'_>|
        mapping_of(
            mapping,
            before.system,
            before.attributes,
            job,
            delivery.observed_time_unix_nano,
        ) && #[trigger] maps_batch(Ok(logs), batch, mapping);
    assert(otlp::logs_batch(logs, batch.rows@, batch.columns@, mapping));
    assert(otlp::batch_log(batch.rows@, batch.columns@, *mapping.output, mapping.query_name@, i)
        is Ok);
}

/// A failure that is reported names its query and its class, and adds nothing but the detail
/// that is safe to tell.
pub proof fn law_reported_failures_name_their_query(
    failure: ReceiverFailure,
    query_name: Seq<char>,
    class: ErrorClass,
    detail: Seq<char>,
)
    requires
        reports(failure, query_name, class, detail),
    ensures
        text::occurs(failure.error@, query_name),
        text::occurs(failure.error@, driver::class_name(class)),
        failure.error@.len() == 30 + query_name.len() + driver::class_name(class).len(),
        failure.source_detail@ == detail,
{
    reveal_strlit("database query '");
    reveal_strlit("' failed with ");
    let head = "database query '"@;
    let middle = "' failed with "@;
    let name = driver::class_name(class);
    assert(failure.error@.subrange(head.len() as int, (head.len() + query_name.len()) as int)
        =~= query_name);
    assert(text::occurs_at(failure.error@, query_name, head.len() as int));
    let at = (head.len() + query_name.len() + middle.len()) as int;
    assert(failure.error@.subrange(at, at + name.len()) =~= name);
    assert(text::occurs_at(failure.error@, name, at));
}

/// A job starts with its own query and interval, due within the jitter, with nothing running,
/// nothing reserved and nothing counted.
pub proof fn law_jobs_start_at_rest(
    job: JobModel,
    system: DatabaseSystem,
    configured: (Seq<char>, crate::database::config::QueryConfig),
    now: nat,
    jitter: nat,
)
    requires
        starts(job, system, configured, now, jitter),
    ensures
        job.query.name@ == configured.0,
        job.schedule.interval == configured.1.interval@,
        now <= job.schedule.next_due,
        job.schedule.next_due - now <= jitter,
        !job.schedule.running,
        !job.schedule.stopped,
        job.schedule.reserved == 0,
        job.metrics.polls_started == 0,
        job.metrics.polls_completed == 0,
        job.metrics.rows_read == 0,
        job.metrics.bytes_read == 0,
        job.metrics.query_name == configured.0,
{
}

/// A report tells every count of a job's metrics, each under its own name.
pub proof fn law_reports_tell_every_count(report: metrics::MetricsReport, model: MetricsModel)
    requires
        tells(report, model),
    ensures
        model.database_system == report.attributes.database_system@,
        model.query_name == report.attributes.query_name@,
        model.durations == report.poll_durations@,
        model.polls_started == report.polls_started,
        model.polls_completed == report.polls_completed,
        model.rows_read == report.rows_read,
        model.bytes_read == report.bytes_read,
        model.batches_sent == report.batches_sent,
        model.failures == report.failures@,
{
}

/// A batch is mapped only where every column that the output speaks of is in its result. Where
/// one is not, the failure is that column's, and the first of those checked is told.
pub proof fn law_missing_columns_fail_a_batch(
    result: Result<LogsData, otlp::MappingFailure>,
    batch: RowBatch,
    mapping: OtlpMapping<'_>,
    name: Seq<char>,
)
    requires
        maps_batch(result, batch, mapping),
        otlp::mapped_names(*mapping.output).contains(name),
        !otlp::has_column(batch.columns@, name),
    ensures
        result is Err,
        result->Err_0 matches otlp::MappingFailure::UnknownColumn(told) && !otlp::has_column(
            batch.columns@,
            told,
        ) && otlp::mapped_names(*mapping.output).contains(told),
{
    let names = otlp::mapped_names(*mapping.output);
    let i = choose|i: int| 0 <= i < names.len() && names[i] == name;
    assert(!otlp::has_column(batch.columns@, names[i]));
}

} // verus!
