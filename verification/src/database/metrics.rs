//! Stable internal telemetry for named database query jobs.

use crate::database::driver;
use crate::database::driver::{DatabaseSystem, ErrorClass};
use crate::text::owned;
use crate::time::Duration;
use vstd::prelude::*;

verus! {

/// Bounded internal error classification.
#[derive(Clone, Copy, Debug, PartialEq, Eq, Structural)]
pub enum DatabaseFailureClass {
    /// Invalid configuration.
    Configuration,
    /// Authentication failure.
    Authentication,
    /// Temporary connection or network failure.
    TransientTransport,
    /// Deadline or cancellation.
    TimeoutCancel,
    /// SQL or authorization failure.
    Query,
    /// Native value conversion failure.
    Conversion,
    /// Downstream pipeline failure.
    Downstream,
    /// Internal invariant failure.
    Internal,
}

/// The telemetry class of an error class: the one of the same name.
pub open spec fn failure_class(class: ErrorClass) -> DatabaseFailureClass {
    match class {
        ErrorClass::Configuration => DatabaseFailureClass::Configuration,
        ErrorClass::Authentication => DatabaseFailureClass::Authentication,
        ErrorClass::TransientTransport => DatabaseFailureClass::TransientTransport,
        ErrorClass::TimeoutCancel => DatabaseFailureClass::TimeoutCancel,
        ErrorClass::Query => DatabaseFailureClass::Query,
        ErrorClass::Conversion => DatabaseFailureClass::Conversion,
        ErrorClass::Downstream => DatabaseFailureClass::Downstream,
        ErrorClass::Internal => DatabaseFailureClass::Internal,
    }
}

impl From<ErrorClass> for DatabaseFailureClass {
    fn from(value: ErrorClass) -> (r: Self) {
        match value {
            ErrorClass::Configuration => DatabaseFailureClass::Configuration,
            ErrorClass::Authentication => DatabaseFailureClass::Authentication,
            ErrorClass::TransientTransport => DatabaseFailureClass::TransientTransport,
            ErrorClass::TimeoutCancel => DatabaseFailureClass::TimeoutCancel,
            ErrorClass::Query => DatabaseFailureClass::Query,
            ErrorClass::Conversion => DatabaseFailureClass::Conversion,
            ErrorClass::Downstream => DatabaseFailureClass::Downstream,
            ErrorClass::Internal => DatabaseFailureClass::Internal,
        }
    }
}

impl vstd::std_specs::convert::FromSpecImpl<ErrorClass> for DatabaseFailureClass {
    open spec fn obeys_from_spec() -> bool {
        true
    }

    open spec fn from_spec(value: ErrorClass) -> Self {
        failure_class(value)
    }
}

/// Low-cardinality database and configured query identity.
#[derive(Debug)]
pub struct DatabaseQueryAttributes {
    /// Database vendor.
    pub database_system: String,
    /// Stable configured query name.
    pub query_name: String,
}

impl Clone for DatabaseQueryAttributes {
    fn clone(&self) -> (r: Self)
        ensures
            r == *self,
    {
        DatabaseQueryAttributes {
            database_system: self.database_system.clone(),
            query_name: self.query_name.clone(),
        }
    }
}

/// What one query did, as far as it can be counted, and which query it is.
pub struct MetricsModel {
    pub database_system: Seq<char>,
    pub query_name: Seq<char>,
    pub polls_started: u64,
    pub polls_completed: u64,
    pub rows_read: u64,
    pub bytes_read: u64,
    pub batches_sent: u64,
    pub failures: Map<DatabaseFailureClass, u64>,
    pub durations: Seq<Duration>,
}

/// A count after `more` was added, as far as it can be counted.
pub open spec fn raised(count: u64, more: int) -> u64 {
    if count + more > u64::MAX {
        u64::MAX
    } else {
        (count + more) as u64
    }
}

/// Failed polls of each class.
#[derive(Clone, Copy, Debug, PartialEq, Eq, Structural)]
pub struct FailureCounts {
    /// Invalid configuration.
    pub configuration: u64,
    /// Authentication failures.
    pub authentication: u64,
    /// Temporary connection or network failures.
    pub transient_transport: u64,
    /// Deadlines and cancellations.
    pub timeout_cancel: u64,
    /// SQL or authorization failures.
    pub query: u64,
    /// Native value conversion failures.
    pub conversion: u64,
    /// Downstream pipeline failures.
    pub downstream: u64,
    /// Internal invariant failures.
    pub internal: u64,
}

/// The count of one class.
pub open spec fn count_of(counts: FailureCounts, class: DatabaseFailureClass) -> u64 {
    match class {
        DatabaseFailureClass::Configuration => counts.configuration,
        DatabaseFailureClass::Authentication => counts.authentication,
        DatabaseFailureClass::TransientTransport => counts.transient_transport,
        DatabaseFailureClass::TimeoutCancel => counts.timeout_cancel,
        DatabaseFailureClass::Query => counts.query,
        DatabaseFailureClass::Conversion => counts.conversion,
        DatabaseFailureClass::Downstream => counts.downstream,
        DatabaseFailureClass::Internal => counts.internal,
    }
}

impl View for FailureCounts {
    type V = Map<DatabaseFailureClass, u64>;

    /// The count of each class.
    open spec fn view(&self) -> Map<DatabaseFailureClass, u64> {
        Map::total(|class: DatabaseFailureClass| count_of(*self, class))
    }
}

/// Metrics owned by one configured query.
#[derive(Debug)]
pub struct QueryMetrics {
    attributes: DatabaseQueryAttributes,
    polls_started: u64,
    polls_completed: u64,
    rows_read: u64,
    bytes_read: u64,
    batches_sent: u64,
    failures: FailureCounts,
    durations: Vec<Duration>,
}

impl View for QueryMetrics {
    type V = MetricsModel;

    closed spec fn view(&self) -> MetricsModel {
        MetricsModel {
            database_system: self.attributes.database_system@,
            query_name: self.attributes.query_name@,
            polls_started: self.polls_started,
            polls_completed: self.polls_completed,
            rows_read: self.rows_read,
            bytes_read: self.bytes_read,
            batches_sent: self.batches_sent,
            failures: self.failures@,
            durations: self.durations@,
        }
    }
}

/// The metrics of a query that did nothing yet.
pub open spec fn no_activity(system: DatabaseSystem, query_name: Seq<char>) -> MetricsModel {
    MetricsModel {
        database_system: driver::system_name(system),
        query_name,
        polls_started: 0,
        polls_completed: 0,
        rows_read: 0,
        bytes_read: 0,
        batches_sent: 0,
        failures: Map::total(|class: DatabaseFailureClass| 0u64),
        durations: Seq::empty(),
    }
}

/// After one more poll started.
pub open spec fn with_start(metrics: MetricsModel) -> MetricsModel {
    MetricsModel { polls_started: raised(metrics.polls_started, 1), ..metrics }
}

/// After one more batch was admitted downstream.
pub open spec fn with_batch(metrics: MetricsModel) -> MetricsModel {
    MetricsModel { batches_sent: raised(metrics.batches_sent, 1), ..metrics }
}

/// After one more poll completed.
pub open spec fn with_completion(
    metrics: MetricsModel,
    rows: nat,
    bytes: u64,
    duration: Duration,
) -> MetricsModel {
    MetricsModel {
        polls_completed: raised(metrics.polls_completed, 1),
        rows_read: raised(metrics.rows_read, rows as int),
        bytes_read: raised(metrics.bytes_read, bytes as int),
        durations: metrics.durations.push(duration),
        ..metrics
    }
}

/// After one more poll failed.
pub open spec fn with_failure(
    metrics: MetricsModel,
    class: ErrorClass,
    duration: Duration,
) -> MetricsModel {
    let kind = failure_class(class);
    MetricsModel {
        failures: metrics.failures.insert(kind, raised(metrics.failures[kind], 1)),
        durations: metrics.durations.push(duration),
        ..metrics
    }
}

impl QueryMetrics {
    /// Registers query metrics using only approved low-cardinality identities.
    pub fn register(system: DatabaseSystem, query_name: &str) -> (r: Self)
        ensures
            r@ == no_activity(system, query_name@),
    {
        let r = QueryMetrics {
            attributes: DatabaseQueryAttributes {
                database_system: owned(system.as_str()),
                query_name: owned(query_name),
            },
            polls_started: 0,
            polls_completed: 0,
            rows_read: 0,
            bytes_read: 0,
            batches_sent: 0,
            failures: FailureCounts {
                configuration: 0,
                authentication: 0,
                transient_transport: 0,
                timeout_cancel: 0,
                query: 0,
                conversion: 0,
                downstream: 0,
                internal: 0,
            },
            durations: Vec::new(),
        };
        assert(r@.failures =~= no_activity(system, query_name@).failures);
        assert(r@.durations =~= Seq::empty());
        r
    }

    /// Borrows the identity that the metrics are reported under.
    pub fn attributes(&self) -> (r: &DatabaseQueryAttributes)
        ensures
            r.database_system@ == self@.database_system,
            r.query_name@ == self@.query_name,
    {
        &self.attributes
    }

    /// Records query admission.
    pub fn poll_started(&mut self)
        ensures
            final(self)@ == with_start(old(self)@),
    {
        self.polls_started = self.polls_started.saturating_add(1);
    }

    /// Records successful normalization.
    pub fn poll_completed(&mut self, rows: usize, bytes: u64, duration: Duration)
        ensures
            final(self)@ == with_completion(old(self)@, rows as nat, bytes, duration),
    {
        self.polls_completed = self.polls_completed.saturating_add(1);
        self.rows_read = self.rows_read.saturating_add(rows as u64);
        self.bytes_read = self.bytes_read.saturating_add(bytes);
        self.durations.push(duration);
    }

    /// Records one downstream-admitted batch.
    pub fn batch_sent(&mut self)
        ensures
            final(self)@ == with_batch(old(self)@),
    {
        self.batches_sent = self.batches_sent.saturating_add(1);
    }

    /// Records a failed poll using a bounded class.
    pub fn poll_failed(&mut self, class: ErrorClass, duration: Duration)
        ensures
            final(self)@ == with_failure(old(self)@, class, duration),
    {
        let mut counts = self.failures;
        match class {
            ErrorClass::Configuration => {
                counts.configuration = counts.configuration.saturating_add(1);
            },
            ErrorClass::Authentication => {
                counts.authentication = counts.authentication.saturating_add(1);
            },
            ErrorClass::TransientTransport => {
                counts.transient_transport = counts.transient_transport.saturating_add(1);
            },
            ErrorClass::TimeoutCancel => {
                counts.timeout_cancel = counts.timeout_cancel.saturating_add(1);
            },
            ErrorClass::Query => {
                counts.query = counts.query.saturating_add(1);
            },
            ErrorClass::Conversion => {
                counts.conversion = counts.conversion.saturating_add(1);
            },
            ErrorClass::Downstream => {
                counts.downstream = counts.downstream.saturating_add(1);
            },
            ErrorClass::Internal => {
                counts.internal = counts.internal.saturating_add(1);
            },
        }
        self.failures = counts;
        self.durations.push(duration);
        assert(self@.failures =~= with_failure(old(self)@, class, duration).failures);
    }

    /// The counts so far and the poll durations since the last report, which are
    /// handed over.
    pub fn report(&mut self) -> (r: MetricsReport)
        ensures
            r.attributes.database_system@ == old(self)@.database_system,
            r.attributes.query_name@ == old(self)@.query_name,
            r.polls_started == old(self)@.polls_started,
            r.polls_completed == old(self)@.polls_completed,
            r.rows_read == old(self)@.rows_read,
            r.bytes_read == old(self)@.bytes_read,
            r.batches_sent == old(self)@.batches_sent,
            r.failures@ == old(self)@.failures,
            r.poll_durations@ == old(self)@.durations,
            final(self)@ == (MetricsModel { durations: Seq::empty(), ..old(self)@ }),
    {
        let mut poll_durations: Vec<Duration> = Vec::new();
        core::mem::swap(&mut poll_durations, &mut self.durations);
        assert(self@.durations =~= Seq::empty());
        MetricsReport {
            attributes: self.attributes.clone(),
            polls_started: self.polls_started,
            polls_completed: self.polls_completed,
            rows_read: self.rows_read,
            bytes_read: self.bytes_read,
            batches_sent: self.batches_sent,
            failures: self.failures,
            poll_durations,
        }
    }
}

/// The metrics of one query at one moment.
#[derive(Debug)]
pub struct MetricsReport {
    /// Which query it is.
    pub attributes: DatabaseQueryAttributes,
    /// Query polls started.
    pub polls_started: u64,
    /// Query polls completed and converted.
    pub polls_completed: u64,
    /// Rows normalized.
    pub rows_read: u64,
    /// Approximate normalized row bytes.
    pub bytes_read: u64,
    /// OTLP batches admitted downstream.
    pub batches_sent: u64,
    /// Failed polls by class.
    pub failures: FailureCounts,
    /// End-to-end poll durations not reported before.
    pub poll_durations: Vec<Duration>,
}

/// A count grows by exactly what is added, and stays at the largest number where it would go
/// beyond it.
pub proof fn law_counts_add_up(count: u64, more: nat)
    ensures
        count + more <= u64::MAX ==> raised(count, more as int) as int - count as int == more,
        count + more > u64::MAX ==> raised(count, more as int) == u64::MAX,
{
}

/// Each event counts where it belongs and nowhere else: a start as one poll started, a batch
/// as one batch sent, a completion as one poll completed with its rows, bytes and duration, and
/// a failure once under its own class, with its duration.
pub proof fn law_events_count_once(
    metrics: MetricsModel,
    class: ErrorClass,
    rows: nat,
    bytes: u64,
    duration: Duration,
)
    requires
        metrics.polls_started < u64::MAX,
        metrics.polls_completed < u64::MAX,
        metrics.batches_sent < u64::MAX,
        metrics.rows_read + rows <= u64::MAX,
        metrics.bytes_read + bytes <= u64::MAX,
        forall|kind: DatabaseFailureClass| #[trigger]
            metrics.failures.dom().contains(kind) && metrics.failures[kind] < u64::MAX,
    ensures
        with_start(metrics) == (MetricsModel {
            polls_started: (metrics.polls_started + 1) as u64,
            ..metrics
        }),
        with_batch(metrics) == (MetricsModel {
            batches_sent: (metrics.batches_sent + 1) as u64,
            ..metrics
        }),
        with_completion(metrics, rows, bytes, duration) == (MetricsModel {
            polls_completed: (metrics.polls_completed + 1) as u64,
            rows_read: (metrics.rows_read + rows) as u64,
            bytes_read: (metrics.bytes_read + bytes) as u64,
            durations: metrics.durations + seq![duration],
            ..metrics
        }),
        ({
            let after = with_failure(metrics, class, duration);
            &&& after == (MetricsModel {
                failures: after.failures,
                durations: metrics.durations + seq![duration],
                ..metrics
            })
            &&& forall|kind: DatabaseFailureClass|
                #![trigger after.failures[kind]]
                after.failures[kind] - metrics.failures[kind] == if kind is Configuration
                    && class is Configuration || kind is Authentication && class is Authentication
                    || kind is TransientTransport && class is TransientTransport
                    || kind is TimeoutCancel && class is TimeoutCancel || kind is Query
                    && class is Query || kind is Conversion && class is Conversion
                    || kind is Downstream && class is Downstream || kind is Internal
                    && class is Internal {
                    1int
                } else {
                    0int
                }
        }),
{
    assert(metrics.durations.push(duration) =~= metrics.durations + seq![duration]);
    let kind = failure_class(class);
    assert(metrics.failures.dom().contains(kind));
}

/// A query that did nothing yet has counted nothing.
pub proof fn law_counting_starts_at_zero(system: DatabaseSystem, query_name: Seq<char>)
    ensures
        ({
            let fresh = no_activity(system, query_name);
            &&& fresh.polls_started == 0 && fresh.polls_completed == 0
            &&& fresh.rows_read == 0 && fresh.bytes_read == 0 && fresh.batches_sent == 0
            &&& fresh.durations.len() == 0
            &&& forall|kind: DatabaseFailureClass| #[trigger] fresh.failures[kind] == 0
            &&& fresh.query_name == query_name
            &&& fresh.database_system == driver::system_name(system)
        }),
{
}

} // verus!
