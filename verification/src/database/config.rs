//! Database-neutral receiver configuration.
//!
//! Each `validate` checks its rules in a fixed order and reports the first that
//! does not hold. The spec functions ending in `verdict` say which one that is.

use crate::json;
use crate::json::JsonValue;
use crate::names::NameMap;
use crate::text;
use crate::text::{alphanumeric, append_text, blank, chars_of, is_among, joined, leading_word};
use crate::text::{normalized, owned, same, same_but_case};
use crate::time::Duration;
use vstd::prelude::*;

verus! {

/// Default number of concurrent query executions.
pub const DEFAULT_MAX_CONCURRENT_QUERIES: usize = 1;

/// Default rows of one downstream batch, and of one query execution.
pub const DEFAULT_MAX_BATCH_ROWS: usize = 1_000;

/// Default normalized bytes of one downstream batch: 8 MiB.
pub const DEFAULT_MAX_BATCH_BYTES: u64 = 8_388_608;

/// Default normalized bytes reserved by all active polls: 16 MiB.
pub const DEFAULT_MAX_IN_FLIGHT_BYTES: u64 = 16_777_216;

/// Default rows fetched at a time.
pub const DEFAULT_FETCH_SIZE: usize = 100;

/// The most named queries one receiver runs.
pub const MAX_QUERY_COUNT: usize = 1_024;

/// Complete configuration for one database receiver and its named query jobs.
pub struct DatabaseReceiverConfig<C> {
    /// Adapter-specific database connection configuration.
    pub database: C,
    /// Receiver-wide scheduling and memory limits.
    pub limits: LimitsConfig,
    /// Scheduling policy shared by all query jobs.
    pub scheduling: SchedulingConfig,
    /// Optional retry policy for transient failures.
    pub retry: RetryConfig,
    /// Operator-approved resource attributes emitted with database logs.
    pub resource_attributes: NameMap<JsonValue>,
    /// Uniquely named polling jobs.
    pub queries: NameMap<QueryConfig>,
}

/// The first rule that receiver-wide settings, query count, queries or resource
/// attributes break, in that order.
pub open spec fn config_verdict<C>(config: DatabaseReceiverConfig<C>) -> Option<Seq<char>> {
    let limits = limits_verdict(config.limits);
    let scheduling = scheduling_verdict(config.scheduling);
    let retry = retry_verdict(config.retry);
    let queries = queries_verdict(config.queries@, config.limits);
    if limits is Some {
        limits
    } else if scheduling is Some {
        scheduling
    } else if retry is Some {
        retry
    } else if config.queries@.len() == 0 {
        Some("queries must contain at least one named query"@)
    } else if config.queries@.len() > MAX_QUERY_COUNT {
        Some("queries must contain no more than 1024 entries"@)
    } else if queries is Some {
        queries
    } else {
        attributes_verdict(config.resource_attributes@)
    }
}

/// The first broken rule of named queries, in order of their names.
pub open spec fn queries_verdict(
    queries: Seq<(Seq<char>, QueryConfig)>,
    limits: LimitsConfig,
) -> Option<Seq<char>>
    decreases queries.len(),
{
    if queries.len() == 0 {
        None
    } else {
        let earlier = queries_verdict(queries.drop_last(), limits);
        let (name, query) = queries.last();
        if earlier is Some {
            earlier
        } else if query_name_verdict(name) is Some {
            query_name_verdict(name)
        } else {
            query_verdict(name, query, limits)
        }
    }
}

impl<C> DatabaseReceiverConfig<C> {
    /// Validates database-neutral receiver configuration.
    pub fn validate(&self) -> (r: Result<(), String>)
        ensures
            text::agrees(r, config_verdict(*self)),
    {
        if let Err(message) = self.limits.validate() {
            return Err(message);
        }
        if let Err(message) = self.scheduling.validate() {
            return Err(message);
        }
        if let Err(message) = self.retry.validate() {
            return Err(message);
        }
        if self.queries.len() == 0 {
            return Err(owned("queries must contain at least one named query"));
        }
        if self.queries.len() > MAX_QUERY_COUNT {
            return Err(owned("queries must contain no more than 1024 entries"));
        }
        let mut i: usize = 0;
        while i < self.queries.len()
            invariant
                i <= self.queries@.len(),
                limits_verdict(self.limits) is None,
                scheduling_verdict(self.scheduling) is None,
                retry_verdict(self.retry) is None,
                0 < self.queries@.len() <= MAX_QUERY_COUNT,
                queries_verdict(self.queries@.take(i as int), self.limits) is None,
            decreases self.queries@.len() - i,
        {
            let ghost next = self.queries@.take(i + 1);
            assert(next.drop_last() =~= self.queries@.take(i as int));
            assert(next.last() == self.queries@[i as int]);
            let checked = match validate_query_name(self.queries.name(i).as_str()) {
                Err(message) => Err(message),
                Ok(()) => self.queries.value(i).validate(
                    self.queries.name(i).as_str(),
                    &self.limits,
                ),
            };
            if let Err(message) = checked {
                assert(queries_verdict(next, self.limits) == Some(message@));
                proof {
                    lemma_queries_verdict_first(self.queries@, self.limits, (i + 1) as nat);
                }
                return Err(message);
            }
            i += 1;
        }
        assert(self.queries@.take(self.queries@.len() as int) =~= self.queries@);
        validate_resource_attributes(&self.resource_attributes)
    }
}

proof fn lemma_queries_verdict_first(
    queries: Seq<(Seq<char>, QueryConfig)>,
    limits: LimitsConfig,
    count: nat,
)
    requires
        count <= queries.len(),
        queries_verdict(queries.take(count as int), limits) is Some,
    ensures
        queries_verdict(queries, limits) == queries_verdict(queries.take(count as int), limits),
    decreases queries.len(),
{
    if count == queries.len() {
        assert(queries.take(count as int) =~= queries);
    } else {
        assert(queries.drop_last().take(count as int) =~= queries.take(count as int));
        lemma_queries_verdict_first(queries.drop_last(), limits, count);
    }
}

/// Receiver-wide resource ceilings.
#[derive(Clone, Copy, Debug, PartialEq, Eq, Structural)]
pub struct LimitsConfig {
    /// Maximum query executions active in this receiver.
    pub max_concurrent_queries: usize,
    /// Maximum rows in one downstream batch.
    pub max_batch_rows: usize,
    /// Maximum normalized bytes in one downstream batch, if set.
    pub max_batch_bytes: Option<u64>,
    /// Maximum normalized bytes reserved by all active polls, if set.
    pub max_in_flight_bytes: Option<u64>,
    /// Maximum driver rows prefetched per fetch operation.
    pub fetch_size: usize,
}

/// The batch-byte limit in force.
pub open spec fn batch_bytes(limits: LimitsConfig) -> u64 {
    match limits.max_batch_bytes {
        Some(bytes) => bytes,
        None => DEFAULT_MAX_BATCH_BYTES,
    }
}

/// The in-flight byte limit in force.
pub open spec fn in_flight_bytes(limits: LimitsConfig) -> u64 {
    match limits.max_in_flight_bytes {
        Some(bytes) => bytes,
        None => DEFAULT_MAX_IN_FLIGHT_BYTES,
    }
}

/// The first rule that the limits break.
pub open spec fn limits_verdict(limits: LimitsConfig) -> Option<Seq<char>> {
    let needed = batch_bytes(limits) * limits.max_concurrent_queries;
    if limits.max_concurrent_queries == 0 {
        Some("limits.max_concurrent_queries must be greater than zero"@)
    } else if limits.max_batch_rows == 0 {
        Some("limits.max_batch_rows must be greater than zero"@)
    } else if batch_bytes(limits) == 0 {
        Some("limits.max_batch_bytes must be greater than zero"@)
    } else if in_flight_bytes(limits) < batch_bytes(limits) {
        Some("limits.max_in_flight_bytes must be at least limits.max_batch_bytes"@)
    } else if needed > u64::MAX {
        Some("configured limits overflow the byte accounting range"@)
    } else if in_flight_bytes(limits) < needed {
        Some("limits.max_in_flight_bytes must allow one batch per concurrent query"@)
    } else if limits.fetch_size == 0 {
        Some("limits.fetch_size must be greater than zero"@)
    } else {
        None
    }
}

impl Default for LimitsConfig {
    fn default() -> (r: Self)
        ensures
            r == (LimitsConfig {
                max_concurrent_queries: DEFAULT_MAX_CONCURRENT_QUERIES,
                max_batch_rows: DEFAULT_MAX_BATCH_ROWS,
                max_batch_bytes: None,
                max_in_flight_bytes: None,
                fetch_size: DEFAULT_FETCH_SIZE,
            }),
    {
        LimitsConfig {
            max_concurrent_queries: DEFAULT_MAX_CONCURRENT_QUERIES,
            max_batch_rows: DEFAULT_MAX_BATCH_ROWS,
            max_batch_bytes: None,
            max_in_flight_bytes: None,
            fetch_size: DEFAULT_FETCH_SIZE,
        }
    }
}

impl LimitsConfig {
    /// Returns the normalized downstream batch-byte limit.
    pub fn max_batch_bytes(&self) -> (bytes: u64)
        ensures
            bytes == batch_bytes(*self),
    {
        match self.max_batch_bytes {
            Some(bytes) => bytes,
            None => DEFAULT_MAX_BATCH_BYTES,
        }
    }

    /// Returns the receiver-local in-flight byte reservation limit.
    pub fn max_in_flight_bytes(&self) -> (bytes: u64)
        ensures
            bytes == in_flight_bytes(*self),
    {
        match self.max_in_flight_bytes {
            Some(bytes) => bytes,
            None => DEFAULT_MAX_IN_FLIGHT_BYTES,
        }
    }

    /// Returns the maximum byte reservation for one poll.
    pub fn max_page_bytes(&self) -> (bytes: u64)
        requires
            self.max_concurrent_queries > 0,
        ensures
            bytes == in_flight_bytes(*self) as int / self.max_concurrent_queries as int,
    {
        self.max_in_flight_bytes() / self.max_concurrent_queries as u64
    }

    /// Checks the limits against each other.
    pub fn validate(&self) -> (r: Result<(), String>)
        ensures
            text::agrees(r, limits_verdict(*self)),
    {
        if self.max_concurrent_queries == 0 {
            return Err(owned("limits.max_concurrent_queries must be greater than zero"));
        }
        if self.max_batch_rows == 0 {
            return Err(owned("limits.max_batch_rows must be greater than zero"));
        }
        if self.max_batch_bytes() == 0 {
            return Err(owned("limits.max_batch_bytes must be greater than zero"));
        }
        if self.max_in_flight_bytes() < self.max_batch_bytes() {
            return Err(
                owned("limits.max_in_flight_bytes must be at least limits.max_batch_bytes"),
            );
        }
        match self.max_batch_bytes().checked_mul(self.max_concurrent_queries as u64) {
            None => {
                return Err(owned("configured limits overflow the byte accounting range"));
            },
            Some(needed) => {
                if self.max_in_flight_bytes() < needed {
                    return Err(
                        owned("limits.max_in_flight_bytes must allow one batch per concurrent query"),
                    );
                }
            },
        }
        if self.fetch_size == 0 {
            return Err(owned("limits.fetch_size must be greater than zero"));
        }
        Ok(())
    }
}

/// Under valid limits every concurrent query can fill a batch: the reservation of
/// one poll holds a batch, and all reservations together stay within the budget.
pub proof fn law_valid_limits_reserve_a_batch_per_query(limits: LimitsConfig)
    requires
        limits_verdict(limits) is None,
    ensures
        batch_bytes(limits) <= in_flight_bytes(limits) as int / limits.max_concurrent_queries as int,
        (in_flight_bytes(limits) as int / limits.max_concurrent_queries as int)
            * limits.max_concurrent_queries <= in_flight_bytes(limits),
{
    let total = in_flight_bytes(limits) as int;
    let share = limits.max_concurrent_queries as int;
    let batch = batch_bytes(limits) as int;
    assert(batch <= total / share) by (nonlinear_arith)
        requires
            share > 0,
            batch * share <= total,
    ;
    assert((total / share) * share <= total) by (nonlinear_arith)
        requires
            share > 0,
    ;
}

/// Shared scheduling behavior.
#[derive(Clone, Copy, Debug, PartialEq, Eq, Structural)]
pub struct SchedulingConfig {
    /// Random delay applied before each query's first execution.
    pub startup_jitter_max: Duration,
}

impl Default for SchedulingConfig {
    fn default() -> (r: Self)
        ensures
            r.startup_jitter_max@ == 0,
    {
        SchedulingConfig { startup_jitter_max: Duration::zero() }
    }
}

/// The rule that scheduling breaks, if it does.
pub open spec fn scheduling_verdict(scheduling: SchedulingConfig) -> Option<Seq<char>> {
    if scheduling.startup_jitter_max@ > 3_600 * 1_000_000_000 {
        Some("scheduling.startup_jitter_max must not exceed 1h"@)
    } else {
        None
    }
}

impl SchedulingConfig {
    /// Checks that the first poll of a query is delayed by an hour at most.
    pub fn validate(&self) -> (r: Result<(), String>)
        ensures
            text::agrees(r, scheduling_verdict(*self)),
    {
        if !self.startup_jitter_max.at_most(&Duration::from_secs(3_600)) {
            return Err(owned("scheduling.startup_jitter_max must not exceed 1h"));
        }
        Ok(())
    }
}

/// Optional bounded exponential retry policy.
#[derive(Clone, Copy, Debug, PartialEq, Eq, Structural)]
pub struct RetryConfig {
    /// Enables retries for transient transport and timeout failures.
    pub enabled: bool,
    /// Initial retry delay.
    pub initial_backoff: Duration,
    /// Exponential multiplier.
    pub multiplier: u32,
}

impl Default for RetryConfig {
    fn default() -> (r: Self)
        ensures
            !r.enabled,
            r.initial_backoff@ == 1_000_000_000,
            r.multiplier == 2,
    {
        RetryConfig {
            enabled: false,
            initial_backoff: default_initial_backoff(),
            multiplier: default_backoff_multiplier(),
        }
    }
}

/// The first rule that the retry policy breaks.
pub open spec fn retry_verdict(retry: RetryConfig) -> Option<Seq<char>> {
    if retry.initial_backoff@ == 0 {
        Some("retry.initial_backoff must be greater than zero"@)
    } else if retry.multiplier < 2 {
        Some("retry.multiplier must be at least 2"@)
    } else {
        None
    }
}

impl RetryConfig {
    /// Checks that delays are real and grow.
    pub fn validate(&self) -> (r: Result<(), String>)
        ensures
            text::agrees(r, retry_verdict(*self)),
    {
        if self.initial_backoff.is_zero() {
            return Err(owned("retry.initial_backoff must be greater than zero"));
        }
        if self.multiplier < 2 {
            return Err(owned("retry.multiplier must be at least 2"));
        }
        Ok(())
    }
}

/// One named snapshot query job.
pub struct QueryConfig {
    /// Read-only operator-authored SQL.
    pub sql: String,
    /// Delay between completed query executions.
    pub interval: Duration,
    /// Query execution deadline.
    pub timeout: Duration,
    /// Snapshot pagination limits.
    pub pagination: PaginationConfig,
    /// Static typed bind values keyed by logical bind name.
    pub parameters: NameMap<JsonValue>,
    /// OTLP body, attribute, and timestamp mapping.
    pub output: OutputConfig,
    /// Action for a permanent query-job failure.
    pub error_policy: ErrorPolicy,
}

/// A message about one setting of a named query.
pub open spec fn query_message(name: Seq<char>, rest: Seq<char>) -> Seq<char> {
    "queries."@ + name + rest
}

/// The first rule that a query breaks.
pub open spec fn query_verdict(
    name: Seq<char>,
    query: QueryConfig,
    limits: LimitsConfig,
) -> Option<Seq<char>> {
    if text::is_blank(query.sql@) {
        Some(query_message(name, ".sql must not be empty"@))
    } else if !starts_read_only(query.sql@) {
        Some(query_message(name, ".sql must start with SELECT or WITH"@))
    } else if query.interval@ == 0 {
        Some(query_message(name, ".interval must be greater than zero"@))
    } else if query.timeout@ == 0 {
        Some(query_message(name, ".timeout must be greater than zero"@))
    } else if query.pagination.max_rows == 0 {
        Some(query_message(name, ".pagination.max_rows must be greater than zero"@))
    } else if query.pagination.max_rows > limits.max_batch_rows * 1_024 {
        Some(query_message(name, ".pagination.max_rows exceeds the bounded page limit"@))
    } else if output_verdict(name, query.output) is Some {
        output_verdict(name, query.output)
    } else {
        parameters_verdict(name, query.parameters@)
    }
}

impl QueryConfig {
    /// Checks one named query against the receiver's limits.
    pub fn validate(&self, name: &str, limits: &LimitsConfig) -> (r: Result<(), String>)
        ensures
            text::agrees(r, query_verdict(name@, *self, *limits)),
    {
        if blank(self.sql.as_str()) {
            return Err(joined("queries.", name, ".sql must not be empty"));
        }
        if !is_read_only_query(self.sql.as_str()) {
            return Err(joined("queries.", name, ".sql must start with SELECT or WITH"));
        }
        if self.interval.is_zero() {
            return Err(joined("queries.", name, ".interval must be greater than zero"));
        }
        if self.timeout.is_zero() {
            return Err(joined("queries.", name, ".timeout must be greater than zero"));
        }
        if self.pagination.max_rows == 0 {
            return Err(
                joined("queries.", name, ".pagination.max_rows must be greater than zero"),
            );
        }
        let exceeded = match limits.max_batch_rows.checked_mul(1_024) {
            Some(bound) => self.pagination.max_rows > bound,
            None => false,
        };
        if exceeded {
            return Err(
                joined("queries.", name, ".pagination.max_rows exceeds the bounded page limit"),
            );
        }
        match self.output.validate(name) {
            Err(message) => Err(message),
            Ok(()) => validate_parameter_names(name, &self.parameters),
        }
    }
}

/// Snapshot query row bound.
#[derive(Clone, Copy, Debug, PartialEq, Eq, Structural)]
pub struct PaginationConfig {
    /// Hard client-side maximum rows per query execution.
    pub max_rows: usize,
}

impl Default for PaginationConfig {
    fn default() -> (r: Self)
        ensures
            r.max_rows == DEFAULT_MAX_BATCH_ROWS,
    {
        PaginationConfig { max_rows: DEFAULT_MAX_BATCH_ROWS }
    }
}

/// OTLP row mapping policy.
pub struct OutputConfig {
    /// Columns included in the row body. Empty includes all columns.
    pub include_columns: Vec<String>,
    /// Source-column to OTLP attribute-name mappings.
    pub attributes: NameMap<String>,
    /// Optional source event-time column.
    pub timestamp: Option<TimestampConfig>,
    /// Behavior for a single row larger than the batch-byte limit.
    pub oversize_policy: OversizePolicy,
}

impl Default for OutputConfig {
    fn default() -> (r: Self)
        ensures
            r.include_columns@.len() == 0,
            r.attributes@.len() == 0,
            r.timestamp is None,
            r.oversize_policy is Error,
    {
        OutputConfig {
            include_columns: Vec::new(),
            attributes: NameMap::new(),
            timestamp: None,
            oversize_policy: OversizePolicy::Error,
        }
    }
}

/// Names as diagnostics show them, one after the other.
pub open spec fn listed(names: Seq<String>) -> Seq<char>
    decreases names.len(),
{
    if names.len() == 0 {
        Seq::empty()
    } else if names.len() == 1 {
        names[0]@
    } else {
        listed(names.drop_last()) + ", "@ + names.last()@
    }
}

/// Attribute names as diagnostics show them, each after its column.
pub open spec fn mapped(attributes: Seq<(Seq<char>, String)>) -> Seq<char>
    decreases attributes.len(),
{
    if attributes.len() == 0 {
        Seq::empty()
    } else {
        let entry = attributes.last().0 + ": "@ + attributes.last().1@;
        if attributes.len() == 1 {
            entry
        } else {
            mapped(attributes.drop_last()) + ", "@ + entry
        }
    }
}

/// A mapping policy as diagnostics show it.
pub open spec fn output_description(output: OutputConfig) -> Seq<char> {
    "OutputConfig { include_columns: ["@ + listed(output.include_columns@) + "], attributes: {"@
        + mapped(output.attributes@) + "}, timestamp: "@ + match output.timestamp {
        Some(timestamp) => timestamp.column@,
        None => "none"@,
    } + ", oversize_policy: "@ + match output.oversize_policy {
        OversizePolicy::Error => "error"@,
        OversizePolicy::AllowSingleRow => "allow_single_row"@,
    } + " }"@
}

fn append_listed(out: &mut String, names: &Vec<String>)
    ensures
        final(out)@ == old(out)@ + listed(names@),
{
    let ghost before = out@;
    let mut i: usize = 0;
    assert(listed(names@.take(0)) =~= Seq::<char>::empty());
    while i < names.len()
        invariant
            i <= names@.len(),
            out@ == before + listed(names@.take(i as int)),
        decreases names.len() - i,
    {
        let ghost next = names@.take(i + 1);
        assert(next.drop_last() =~= names@.take(i as int));
        assert(next.last() == names@[i as int]);
        if i > 0 {
            append_text(out, ", ");
        }
        append_text(out, names[i].as_str());
        assert(out@ =~= before + listed(next));
        i += 1;
    }
    assert(names@.take(names@.len() as int) =~= names@);
}

fn append_mapped(out: &mut String, attributes: &NameMap<String>)
    ensures
        final(out)@ == old(out)@ + mapped(attributes@),
{
    let ghost before = out@;
    let mut i: usize = 0;
    assert(mapped(attributes@.take(0)) =~= Seq::<char>::empty());
    while i < attributes.len()
        invariant
            i <= attributes@.len(),
            out@ == before + mapped(attributes@.take(i as int)),
        decreases attributes@.len() - i,
    {
        let ghost next = attributes@.take(i + 1);
        assert(next.drop_last() =~= attributes@.take(i as int));
        assert(next.last() == attributes@[i as int]);
        if i > 0 {
            append_text(out, ", ");
        }
        append_text(out, attributes.name(i).as_str());
        append_text(out, ": ");
        append_text(out, attributes.value(i).as_str());
        assert(out@ =~= before + mapped(next));
        i += 1;
    }
    assert(attributes@.take(attributes@.len() as int) =~= attributes@);
}

impl OutputConfig {
    /// The mapping policy as diagnostics show it.
    pub fn describe(&self) -> (r: String)
        ensures
            r@ == output_description(*self),
    {
        let mut r = owned("OutputConfig { include_columns: [");
        append_listed(&mut r, &self.include_columns);
        append_text(&mut r, "], attributes: {");
        append_mapped(&mut r, &self.attributes);
        append_text(&mut r, "}, timestamp: ");
        match &self.timestamp {
            Some(timestamp) => append_text(&mut r, timestamp.column.as_str()),
            None => append_text(&mut r, "none"),
        }
        append_text(&mut r, ", oversize_policy: ");
        match self.oversize_policy {
            OversizePolicy::Error => append_text(&mut r, "error"),
            OversizePolicy::AllowSingleRow => append_text(&mut r, "allow_single_row"),
        }
        append_text(&mut r, " }");
        assert(r@ =~= output_description(*self));
        r
    }
}

/// A message about a configured name that says nothing.
pub open spec fn empty_name() -> Seq<char> {
    "configured names must not be empty"@
}

/// The first column to include that has no name or repeats an earlier one.
pub open spec fn included_verdict(query: Seq<char>, columns: Seq<String>) -> Option<Seq<char>>
    decreases columns.len(),
{
    if columns.len() == 0 {
        None
    } else {
        let earlier = included_verdict(query, columns.drop_last());
        let name = columns.last()@;
        if earlier is Some {
            earlier
        } else if text::is_blank(name) {
            Some(empty_name())
        } else if exists|i: int|
            0 <= i < columns.len() - 1 && text::normal_name((#[trigger] columns[i])@)
                == text::normal_name(name) {
            Some(query_message(query, ".output.include_columns contains a duplicate column"@))
        } else {
            None
        }
    }
}

/// The first attribute mapping without a column, without a target, or whose target
/// an earlier one has.
pub open spec fn targets_verdict(
    query: Seq<char>,
    attributes: Seq<(Seq<char>, String)>,
) -> Option<Seq<char>>
    decreases attributes.len(),
{
    if attributes.len() == 0 {
        None
    } else {
        let earlier = targets_verdict(query, attributes.drop_last());
        let (column, target) = attributes.last();
        if earlier is Some {
            earlier
        } else if text::is_blank(column) || text::is_blank(target@) {
            Some(empty_name())
        } else if exists|i: int|
            0 <= i < attributes.len() - 1 && text::normal_name((#[trigger] attributes[i]).1@)
                == text::normal_name(target@) {
            Some(query_message(query, ".output.attributes contains a duplicate target name"@))
        } else {
            None
        }
    }
}

/// The first rule that an output mapping breaks.
pub open spec fn output_verdict(query: Seq<char>, output: OutputConfig) -> Option<Seq<char>> {
    let included = included_verdict(query, output.include_columns@);
    let targets = targets_verdict(query, output.attributes@);
    if included is Some {
        included
    } else if targets is Some {
        targets
    } else if output.timestamp is Some && text::is_blank(output.timestamp->0.column@) {
        Some(empty_name())
    } else {
        None
    }
}

impl OutputConfig {
    /// Checks that every configured name says something and names one thing.
    pub fn validate(&self, query_name: &str) -> (r: Result<(), String>)
        ensures
            text::agrees(r, output_verdict(query_name@, *self)),
    {
        if let Err(message) = validate_included(query_name, &self.include_columns) {
            return Err(message);
        }
        if let Err(message) = validate_targets(query_name, &self.attributes) {
            return Err(message);
        }
        if let Some(timestamp) = &self.timestamp {
            if let Err(message) = normalize_name(timestamp.column.as_str()) {
                return Err(message);
            }
        }
        Ok(())
    }
}

fn validate_included(query_name: &str, columns: &Vec<String>) -> (r: Result<(), String>)
    ensures
        text::agrees(r, included_verdict(query_name@, columns@)),
{
    let mut included: Vec<String> = Vec::new();
    let mut i: usize = 0;
    while i < columns.len()
        invariant
            i <= columns@.len(),
            included@.len() == i,
            forall|j: int|
                0 <= j < i ==> (#[trigger] included@[j])@ == text::normal_name(columns@[j]@),
            included_verdict(query_name@, columns@.take(i as int)) is None,
        decreases columns.len() - i,
    {
        let ghost next = columns@.take(i + 1);
        assert(next.drop_last() =~= columns@.take(i as int));
        assert(forall|j: int| 0 <= j <= i ==> next[j] == columns@[j]);
        match normalize_name(columns[i].as_str()) {
            Err(message) => {
                proof {
                    lemma_included_first(query_name@, columns@, (i + 1) as nat);
                }
                return Err(message);
            },
            Ok(name) => {
                if is_among(&included, name.as_str()) {
                    proof {
                        let j = choose|j: int|
                            0 <= j < included@.len() && (#[trigger] included@[j])@ == name@;
                        assert(text::normal_name(next[j]@) == text::normal_name(next[i as int]@));
                        lemma_included_first(query_name@, columns@, (i + 1) as nat);
                    }
                    return Err(
                        joined(
                            "queries.",
                            query_name,
                            ".output.include_columns contains a duplicate column",
                        ),
                    );
                }
                assert forall|j: int| 0 <= j < i implies text::normal_name((#[trigger] next[j])@)
                    != text::normal_name(next[i as int]@) by {
                    assert(included@[j]@ == text::normal_name(columns@[j]@));
                }
                included.push(name);
            },
        }
        i += 1;
    }
    assert(columns@.take(columns@.len() as int) =~= columns@);
    Ok(())
}

proof fn lemma_included_first(query: Seq<char>, columns: Seq<String>, count: nat)
    requires
        count <= columns.len(),
        included_verdict(query, columns.take(count as int)) is Some,
    ensures
        included_verdict(query, columns) == included_verdict(query, columns.take(count as int)),
    decreases columns.len(),
{
    if count == columns.len() {
        assert(columns.take(count as int) =~= columns);
    } else {
        assert(columns.drop_last().take(count as int) =~= columns.take(count as int));
        lemma_included_first(query, columns.drop_last(), count);
    }
}

fn validate_targets(query_name: &str, attributes: &NameMap<String>) -> (r: Result<(), String>)
    ensures
        text::agrees(r, targets_verdict(query_name@, attributes@)),
{
    let mut targets: Vec<String> = Vec::new();
    let mut i: usize = 0;
    while i < attributes.len()
        invariant
            i <= attributes@.len(),
            targets@.len() == i,
            forall|j: int|
                0 <= j < i ==> (#[trigger] targets@[j])@ == text::normal_name(attributes@[j].1@),
            targets_verdict(query_name@, attributes@.take(i as int)) is None,
        decreases attributes@.len() - i,
    {
        let ghost next = attributes@.take(i + 1);
        assert(next.drop_last() =~= attributes@.take(i as int));
        assert(forall|j: int| 0 <= j <= i ==> next[j] == attributes@[j]);
        if let Err(message) = normalize_name(attributes.name(i).as_str()) {
            proof {
                lemma_targets_first(query_name@, attributes@, (i + 1) as nat);
            }
            return Err(message);
        }
        match normalize_name(attributes.value(i).as_str()) {
            Err(message) => {
                proof {
                    lemma_targets_first(query_name@, attributes@, (i + 1) as nat);
                }
                return Err(message);
            },
            Ok(name) => {
                if is_among(&targets, name.as_str()) {
                    proof {
                        let j = choose|j: int|
                            0 <= j < targets@.len() && (#[trigger] targets@[j])@ == name@;
                        assert(text::normal_name(next[j].1@) == text::normal_name(
                            next[i as int].1@,
                        ));
                        lemma_targets_first(query_name@, attributes@, (i + 1) as nat);
                    }
                    return Err(
                        joined(
                            "queries.",
                            query_name,
                            ".output.attributes contains a duplicate target name",
                        ),
                    );
                }
                assert forall|j: int| 0 <= j < i implies text::normal_name((#[trigger] next[j]).1@)
                    != text::normal_name(next[i as int].1@) by {
                    assert(targets@[j]@ == text::normal_name(attributes@[j].1@));
                }
                targets.push(name);
            },
        }
        i += 1;
    }
    assert(attributes@.take(attributes@.len() as int) =~= attributes@);
    Ok(())
}

proof fn lemma_targets_first(
    query: Seq<char>,
    attributes: Seq<(Seq<char>, String)>,
    count: nat,
)
    requires
        count <= attributes.len(),
        targets_verdict(query, attributes.take(count as int)) is Some,
    ensures
        targets_verdict(query, attributes) == targets_verdict(query, attributes.take(count as int)),
    decreases attributes.len(),
{
    if count == attributes.len() {
        assert(attributes.take(count as int) =~= attributes);
    } else {
        assert(attributes.drop_last().take(count as int) =~= attributes.take(count as int));
        lemma_targets_first(query, attributes.drop_last(), count);
    }
}

/// Source event-time configuration.
#[derive(Debug)]
pub struct TimestampConfig {
    /// Result column containing the source event time.
    pub column: String,
}

/// Explicit behavior for a single oversized row.
#[derive(Clone, Copy, Debug, PartialEq, Eq, Structural)]
pub enum OversizePolicy {
    /// Fail conversion without truncating the value.
    Error,
    /// Admit one explicit oversized record as its own batch.
    AllowSingleRow,
}

/// Scope of a permanent query failure.
#[derive(Clone, Copy, Debug, PartialEq, Eq, Structural)]
pub enum ErrorPolicy {
    /// Stop only the affected named query.
    StopQuery,
    /// Stop the receiver so the failure is visible to orchestration.
    StopReceiver,
}

impl Default for OversizePolicy {
    fn default() -> (r: Self)
        ensures
            r is Error,
    {
        OversizePolicy::Error
    }
}

impl Default for ErrorPolicy {
    fn default() -> (r: Self)
        ensures
            r is StopReceiver,
    {
        ErrorPolicy::StopReceiver
    }
}

/// Default number of concurrent query executions.
pub fn default_max_concurrent_queries() -> (n: usize)
    ensures
        n == DEFAULT_MAX_CONCURRENT_QUERIES,
{
    DEFAULT_MAX_CONCURRENT_QUERIES
}

/// Default rows of one downstream batch.
pub fn default_max_batch_rows() -> (n: usize)
    ensures
        n == DEFAULT_MAX_BATCH_ROWS,
{
    DEFAULT_MAX_BATCH_ROWS
}

/// Default rows fetched at a time.
pub fn default_fetch_size() -> (n: usize)
    ensures
        n == DEFAULT_FETCH_SIZE,
{
    DEFAULT_FETCH_SIZE
}

/// Default delay before the first retry.
pub fn default_initial_backoff() -> (r: Duration)
    ensures
        r@ == 1_000_000_000,
{
    Duration::from_secs(1)
}

/// Default growth of retry delays.
pub fn default_backoff_multiplier() -> (n: u32)
    ensures
        n == 2,
{
    2
}

/// Whether a character may stand in a query name.
pub open spec fn is_query_name_char(c: char) -> bool {
    text::is_alphanumeric(c) || c == '_' || c == '-'
}

/// The rule that a query name breaks, if it does.
pub open spec fn query_name_verdict(name: Seq<char>) -> Option<Seq<char>> {
    if name.len() == 0 || exists|i: int|
        0 <= i < name.len() && !is_query_name_char(#[trigger] name[i]) {
        Some(
            "query name '"@ + name
                + "' must contain only ASCII letters, digits, '_' or '-'"@,
        )
    } else {
        None
    }
}

/// Checks that a query name is made of ASCII letters, digits, `_` and `-`.
pub fn validate_query_name(name: &str) -> (r: Result<(), String>)
    ensures
        text::agrees(r, query_name_verdict(name@)),
{
    let chars = chars_of(name);
    let mut valid = chars.len() > 0;
    let mut i: usize = 0;
    while i < chars.len()
        invariant
            i <= chars@.len(),
            chars@ == name@,
            valid <==> name@.len() > 0 && forall|j: int|
                0 <= j < i ==> is_query_name_char(#[trigger] name@[j]),
        decreases chars.len() - i,
    {
        let c = chars[i];
        if !(alphanumeric(c) || c == '_' || c == '-') {
            valid = false;
            assert(!is_query_name_char(name@[i as int]));
        }
        i += 1;
    }
    if !valid {
        return Err(
            joined(
                "query name '",
                name,
                "' must contain only ASCII letters, digits, '_' or '-'",
            ),
        );
    }
    Ok(())
}

/// Whether a text can name a bind: ASCII letters, digits and `_`, at least one.
pub open spec fn is_bind_name(name: Seq<char>) -> bool {
    &&& name.len() > 0
    &&& forall|i: int|
        0 <= i < name.len() ==> text::is_alphanumeric(#[trigger] name[i]) || name[i] == '_'
}

/// The first parameter whose name cannot name a bind.
pub open spec fn parameters_verdict(
    query: Seq<char>,
    parameters: Seq<(Seq<char>, JsonValue)>,
) -> Option<Seq<char>>
    decreases parameters.len(),
{
    if parameters.len() == 0 {
        None
    } else {
        let earlier = parameters_verdict(query, parameters.drop_last());
        let name = parameters.last().0;
        if earlier is Some {
            earlier
        } else if !is_bind_name(name) {
            Some(
                query_message(query, ".parameters key '"@) + name
                    + "' is not a valid logical bind name"@,
            )
        } else {
            None
        }
    }
}

fn can_name_a_bind(name: &str) -> (found: bool)
    ensures
        found == is_bind_name(name@),
{
    let chars = chars_of(name);
    let mut i: usize = 0;
    while i < chars.len()
        invariant
            i <= chars@.len(),
            chars@ == name@,
            forall|j: int|
                0 <= j < i ==> text::is_alphanumeric(#[trigger] name@[j]) || name@[j] == '_',
        decreases chars.len() - i,
    {
        if !(alphanumeric(chars[i]) || chars[i] == '_') {
            assert(!text::is_alphanumeric(name@[i as int]));
            return false;
        }
        i += 1;
    }
    chars.len() > 0
}

/// Checks that every parameter can name a bind.
pub fn validate_parameter_names(query_name: &str, parameters: &NameMap<JsonValue>) -> (r: Result<
    (),
    String,
>)
    ensures
        text::agrees(r, parameters_verdict(query_name@, parameters@)),
{
    let mut i: usize = 0;
    while i < parameters.len()
        invariant
            i <= parameters@.len(),
            parameters_verdict(query_name@, parameters@.take(i as int)) is None,
        decreases parameters@.len() - i,
    {
        let ghost next = parameters@.take(i + 1);
        assert(next.drop_last() =~= parameters@.take(i as int));
        assert(next.last() == parameters@[i as int]);
        if !can_name_a_bind(parameters.name(i).as_str()) {
            let mut message = joined("queries.", query_name, ".parameters key '");
            append_text(&mut message, parameters.name(i).as_str());
            append_text(&mut message, "' is not a valid logical bind name");
            proof {
                lemma_parameters_first(query_name@, parameters@, (i + 1) as nat);
            }
            return Err(message);
        }
        i += 1;
    }
    assert(parameters@.take(parameters@.len() as int) =~= parameters@);
    Ok(())
}

proof fn lemma_parameters_first(
    query: Seq<char>,
    parameters: Seq<(Seq<char>, JsonValue)>,
    count: nat,
)
    requires
        count <= parameters.len(),
        parameters_verdict(query, parameters.take(count as int)) is Some,
    ensures
        parameters_verdict(query, parameters) == parameters_verdict(
            query,
            parameters.take(count as int),
        ),
    decreases parameters.len(),
{
    if count == parameters.len() {
        assert(parameters.take(count as int) =~= parameters);
    } else {
        assert(parameters.drop_last().take(count as int) =~= parameters.take(count as int));
        lemma_parameters_first(query, parameters.drop_last(), count);
    }
}

/// Whether an attribute would reveal where the database is.
pub open spec fn reveals_connection(key: Seq<char>) -> bool {
    ||| key == "db.connection_string"@
    ||| key == "db.endpoint"@
    ||| key == "server.address"@
    ||| key == "server.port"@
}

/// The first resource attribute without a name, one that reveals the connection,
/// or one that is not a scalar.
pub open spec fn attributes_verdict(
    attributes: Seq<(Seq<char>, JsonValue)>,
) -> Option<Seq<char>>
    decreases attributes.len(),
{
    if attributes.len() == 0 {
        None
    } else {
        let earlier = attributes_verdict(attributes.drop_last());
        let (key, value) = attributes.last();
        if earlier is Some {
            earlier
        } else if text::is_blank(key) {
            Some(empty_name())
        } else if reveals_connection(key) {
            Some(
                "resource attribute '"@ + key + "' may expose database connection identity"@,
            )
        } else if !json::is_scalar(value) {
            Some("resource attribute '"@ + key + "' must be a string, boolean, or number"@)
        } else {
            None
        }
    }
}

/// Checks that resource attributes are named scalars that do not reveal the connection.
pub fn validate_resource_attributes(attributes: &NameMap<JsonValue>) -> (r: Result<(), String>)
    ensures
        text::agrees(r, attributes_verdict(attributes@)),
{
    let mut i: usize = 0;
    while i < attributes.len()
        invariant
            i <= attributes@.len(),
            attributes_verdict(attributes@.take(i as int)) is None,
        decreases attributes@.len() - i,
    {
        let ghost next = attributes@.take(i + 1);
        assert(next.drop_last() =~= attributes@.take(i as int));
        assert(next.last() == attributes@[i as int]);
        let key = attributes.name(i).as_str();
        let failure: Option<String> = match normalize_name(key) {
            Err(message) => Some(message),
            Ok(_) => {
                if same(key, "db.connection_string") || same(key, "db.endpoint") || same(
                    key,
                    "server.address",
                ) || same(key, "server.port") {
                    Some(
                        joined(
                            "resource attribute '",
                            key,
                            "' may expose database connection identity",
                        ),
                    )
                } else if !attributes.value(i).is_scalar() {
                    Some(
                        joined(
                            "resource attribute '",
                            key,
                            "' must be a string, boolean, or number",
                        ),
                    )
                } else {
                    None
                }
            },
        };
        if let Some(message) = failure {
            proof {
                lemma_attributes_first(attributes@, (i + 1) as nat);
            }
            return Err(message);
        }
        i += 1;
    }
    assert(attributes@.take(attributes@.len() as int) =~= attributes@);
    Ok(())
}

proof fn lemma_attributes_first(attributes: Seq<(Seq<char>, JsonValue)>, count: nat)
    requires
        count <= attributes.len(),
        attributes_verdict(attributes.take(count as int)) is Some,
    ensures
        attributes_verdict(attributes) == attributes_verdict(attributes.take(count as int)),
    decreases attributes.len(),
{
    if count == attributes.len() {
        assert(attributes.take(count as int) =~= attributes);
    } else {
        assert(attributes.drop_last().take(count as int) =~= attributes.take(count as int));
        lemma_attributes_first(attributes.drop_last(), count);
    }
}

/// The normal form of a configured name, which must not be blank.
pub fn normalize_name(value: &str) -> (r: Result<String, String>)
    ensures
        match r {
            Ok(name) => !text::is_blank(value@) && name@ == text::normal_name(value@),
            Err(message) => text::is_blank(value@) && message@ == empty_name(),
        },
{
    if blank(value) {
        Err(owned("configured names must not be empty"))
    } else {
        Ok(normalized(value))
    }
}

/// Whether a statement's first word is SELECT or WITH.
pub open spec fn starts_read_only(query: Seq<char>) -> bool {
    match text::first_word(query) {
        Some(word) => text::same_ignoring_case(word, "SELECT"@) || text::same_ignoring_case(
            word,
            "WITH"@,
        ),
        None => false,
    }
}

/// Whether a statement's first word is SELECT or WITH.
pub fn is_read_only_query(query: &str) -> (found: bool)
    ensures
        found == starts_read_only(query@),
{
    match leading_word(query) {
        Some(word) => same_but_case(word.as_str(), "SELECT") || same_but_case(
            word.as_str(),
            "WITH",
        ),
        None => false,
    }
}

/// Limits are accepted exactly when each is positive and there are bytes in flight for a
/// batch of every concurrent query, with the defaults where none is set.
pub proof fn law_accepted_limits_hold_together(limits: LimitsConfig)
    ensures
        ({
            let batch = match limits.max_batch_bytes {
                Some(bytes) => bytes as int,
                None => 8 * 1024 * 1024int,
            };
            let flight = match limits.max_in_flight_bytes {
                Some(bytes) => bytes as int,
                None => 16 * 1024 * 1024int,
            };
            limits_verdict(limits) is None <==> limits.max_concurrent_queries >= 1
                && limits.max_batch_rows >= 1 && limits.fetch_size >= 1 && batch >= 1 && batch
                * limits.max_concurrent_queries <= flight
        }),
        batch_bytes(limits) == match limits.max_batch_bytes {
            Some(bytes) => bytes,
            None => 8_388_608u64,
        },
        in_flight_bytes(limits) == match limits.max_in_flight_bytes {
            Some(bytes) => bytes,
            None => 16_777_216u64,
        },
{
    let batch = batch_bytes(limits) as int;
    let many = limits.max_concurrent_queries as int;
    assert(many >= 1 && batch >= 0 ==> batch * many >= batch) by (nonlinear_arith);
}

/// The delay before the first poll is at most an hour, and a retry waits for some time and
/// for at least twice as long each time.
pub proof fn law_accepted_delays_hold_together(scheduling: SchedulingConfig, retry: RetryConfig)
    ensures
        scheduling_verdict(scheduling) is None <==> scheduling.startup_jitter_max@
            <= 3_600_000_000_000,
        retry_verdict(retry) is None <==> retry.initial_backoff@ >= 1 && retry.multiplier >= 2,
{
}

/// Whether a character is an ASCII letter, a digit or an underscore.
pub open spec fn is_word_char(c: char) -> bool {
    ||| 'a' <= c <= 'z'
    ||| 'A' <= c <= 'Z'
    ||| '0' <= c <= '9'
    ||| c == '_'
}

/// A query's name is accepted exactly when it is one or more letters, digits, underscores and
/// hyphens, and the name of a parameter when it is one or more of them without hyphens.
pub proof fn law_accepted_names_are_words(name: Seq<char>)
    ensures
        query_name_verdict(name) is None <==> name.len() >= 1 && forall|i: int|
            0 <= i < name.len() ==> is_word_char(#[trigger] name[i]) || name[i] == '-',
        is_bind_name(name) <==> name.len() >= 1 && forall|i: int|
            0 <= i < name.len() ==> is_word_char(#[trigger] name[i]),
{
    if query_name_verdict(name) is None {
        assert forall|i: int| 0 <= i < name.len() implies is_word_char(#[trigger] name[i])
            || name[i] == '-' by {
            assert(is_query_name_char(name[i]));
        }
    }
}

/// A statement is taken for read-only exactly when its first word is SELECT or WITH, in any
/// case.
pub proof fn law_read_only_statements_begin_so(query: Seq<char>)
    ensures
        starts_read_only(query) <==> (text::first_word(query) matches Some(word) && (
        text::spells_alike(word, seq!['S', 'E', 'L', 'E', 'C', 'T']) || text::spells_alike(
            word,
            seq!['W', 'I', 'T', 'H'],
        ))),
{
    reveal_strlit("SELECT");
    reveal_strlit("WITH");
    assert("SELECT"@ =~= seq!['S', 'E', 'L', 'E', 'C', 'T']);
    assert("WITH"@ =~= seq!['W', 'I', 'T', 'H']);
    if text::first_word(query) is Some {
        let word = text::first_word(query)->0;
        text::law_case_is_all_that_is_ignored(word, "SELECT"@);
        text::law_case_is_all_that_is_ignored(word, "WITH"@);
    }
}

/// Columns to include are accepted exactly when none is blank and no two are spelt alike once
/// white space around them is taken away.
pub proof fn law_included_columns_are_told_apart(query: Seq<char>, columns: Seq<String>)
    ensures
        included_verdict(query, columns) is None <==> (forall|i: int|
            0 <= i < columns.len() ==> !text::is_blank((#[trigger] columns[i])@)) && (forall|
            i: int,
            j: int,
        |
            0 <= i < j < columns.len() ==> !text::spells_alike(
                text::trim((#[trigger] columns[i])@),
                text::trim((#[trigger] columns[j])@),
            )),
    decreases columns.len(),
{
    if columns.len() > 0 {
        let rest = columns.drop_last();
        let last = columns.len() - 1;
        law_included_columns_are_told_apart(query, rest);
        assert forall|i: int| 0 <= i < last implies rest[i] == #[trigger] columns[i] by {}
        assert forall|i: int| 0 <= i < last implies (text::normal_name((#[trigger] columns[i])@)
            == text::normal_name(columns[last]@)) == text::spells_alike(
            text::trim(columns[i]@),
            text::trim(columns[last]@),
        ) by {
            text::law_names_are_judged_without_case_and_space(columns[i]@, columns[last]@);
        }
        if included_verdict(query, columns) is None {
            assert forall|i: int| 0 <= i < columns.len() implies !text::is_blank(
                (#[trigger] columns[i])@,
            ) by {
                if i < last {
                    assert(rest[i] == columns[i]);
                }
            }
            assert forall|i: int, j: int| 0 <= i < j < columns.len() implies !text::spells_alike(
                text::trim((#[trigger] columns[i])@),
                text::trim((#[trigger] columns[j])@),
            ) by {
                assert(rest[i] == columns[i]);
                if j < last {
                    assert(rest[j] == columns[j]);
                }
            }
        } else if included_verdict(query, rest) is Some {
            if exists|i: int| 0 <= i < rest.len() && text::is_blank((#[trigger] rest[i])@) {
                let i = choose|i: int| 0 <= i < rest.len() && text::is_blank((#[trigger] rest[i])@);
                assert(text::is_blank(columns[i]@));
            } else {
                let (i, j) = choose|i: int, j: int|
                    0 <= i < j < rest.len() && text::spells_alike(
                        text::trim((#[trigger] rest[i])@),
                        text::trim((#[trigger] rest[j])@),
                    );
                assert(text::spells_alike(text::trim(columns[i]@), text::trim(columns[j]@)));
            }
        }
    }
}

/// Attribute mappings are accepted exactly when no column and no target is blank and no two
/// targets are spelt alike once white space around them is taken away.
pub proof fn law_attribute_targets_are_told_apart(
    query: Seq<char>,
    attributes: Seq<(Seq<char>, String)>,
)
    ensures
        targets_verdict(query, attributes) is None <==> (forall|i: int|
            0 <= i < attributes.len() ==> !text::is_blank((#[trigger] attributes[i]).0)
                && !text::is_blank(attributes[i].1@)) && (forall|i: int, j: int|
            0 <= i < j < attributes.len() ==> !text::spells_alike(
                text::trim((#[trigger] attributes[i]).1@),
                text::trim((#[trigger] attributes[j]).1@),
            )),
    decreases attributes.len(),
{
    if attributes.len() > 0 {
        let rest = attributes.drop_last();
        let last = attributes.len() - 1;
        law_attribute_targets_are_told_apart(query, rest);
        assert forall|i: int| 0 <= i < last implies rest[i] == #[trigger] attributes[i] by {}
        assert forall|i: int| 0 <= i < last implies (text::normal_name(
            (#[trigger] attributes[i]).1@,
        ) == text::normal_name(attributes[last].1@)) == text::spells_alike(
            text::trim(attributes[i].1@),
            text::trim(attributes[last].1@),
        ) by {
            text::law_names_are_judged_without_case_and_space(
                attributes[i].1@,
                attributes[last].1@,
            );
        }
        if targets_verdict(query, attributes) is None {
            assert forall|i: int| 0 <= i < attributes.len() implies !text::is_blank(
                (#[trigger] attributes[i]).0,
            ) && !text::is_blank(attributes[i].1@) by {
                if i < last {
                    assert(rest[i] == attributes[i]);
                }
            }
            assert forall|i: int, j: int| 0 <= i < j < attributes.len() implies !text::spells_alike(
                text::trim((#[trigger] attributes[i]).1@),
                text::trim((#[trigger] attributes[j]).1@),
            ) by {
                assert(rest[i] == attributes[i]);
                if j < last {
                    assert(rest[j] == attributes[j]);
                }
            }
        } else if targets_verdict(query, rest) is Some {
            if exists|i: int|
                0 <= i < rest.len() && (text::is_blank((#[trigger] rest[i]).0) || text::is_blank(
                    rest[i].1@,
                )) {
                let i = choose|i: int|
                    0 <= i < rest.len() && (text::is_blank((#[trigger] rest[i]).0)
                        || text::is_blank(rest[i].1@));
                assert(attributes[i] == rest[i]);
            } else {
                let (i, j) = choose|i: int, j: int|
                    0 <= i < j < rest.len() && text::spells_alike(
                        text::trim((#[trigger] rest[i]).1@),
                        text::trim((#[trigger] rest[j]).1@),
                    );
                assert(text::spells_alike(text::trim(attributes[i].1@), text::trim(attributes[j].1@)));
            }
        }
    }
}

/// Resource attributes are accepted exactly when each is named, is a text, a boolean or a
/// number, and none tells where the database is.
pub proof fn law_resource_attributes_tell_no_address(attributes: Seq<(Seq<char>, JsonValue)>)
    ensures
        attributes_verdict(attributes) is None <==> forall|i: int|
            0 <= i < attributes.len() ==> {
                &&& !text::is_blank((#[trigger] attributes[i]).0)
                &&& attributes[i].0 != "db.connection_string"@
                &&& attributes[i].0 != "db.endpoint"@
                &&& attributes[i].0 != "server.address"@
                &&& attributes[i].0 != "server.port"@
                &&& attributes[i].1 is String || attributes[i].1 is Bool || attributes[i].1 is Number
            },
    decreases attributes.len(),
{
    if attributes.len() > 0 {
        let rest = attributes.drop_last();
        law_resource_attributes_tell_no_address(rest);
        assert forall|i: int| 0 <= i < rest.len() implies rest[i] == #[trigger] attributes[i] by {}
        assert(attributes[attributes.len() - 1] == attributes.last());
        if attributes_verdict(rest) is Some {
            let i = choose|i: int|
                0 <= i < rest.len() && !{
                    &&& !text::is_blank((#[trigger] rest[i]).0)
                    &&& rest[i].0 != "db.connection_string"@
                    &&& rest[i].0 != "db.endpoint"@
                    &&& rest[i].0 != "server.address"@
                    &&& rest[i].0 != "server.port"@
                    &&& rest[i].1 is String || rest[i].1 is Bool || rest[i].1 is Number
                };
            assert(attributes[i] == rest[i]);
        } else {
            assert forall|i: int| 0 <= i < rest.len() implies !text::is_blank(
                (#[trigger] attributes[i]).0,
            ) by {
                assert(rest[i] == attributes[i]);
            }
            assert forall|i: int| 0 <= i < rest.len() implies {
                &&& (#[trigger] attributes[i]).0 != "db.connection_string"@
                &&& attributes[i].0 != "db.endpoint"@
                &&& attributes[i].0 != "server.address"@
                &&& attributes[i].0 != "server.port"@
                &&& attributes[i].1 is String || attributes[i].1 is Bool || attributes[i].1 is Number
            } by {
                assert(rest[i] == attributes[i]);
            }
        }
    }
}

/// Parameters are accepted exactly when each can name a bind.
pub proof fn law_parameters_name_binds(query: Seq<char>, parameters: Seq<(Seq<char>, JsonValue)>)
    ensures
        parameters_verdict(query, parameters) is None <==> forall|i: int|
            0 <= i < parameters.len() ==> is_bind_name((#[trigger] parameters[i]).0),
    decreases parameters.len(),
{
    if parameters.len() > 0 {
        let rest = parameters.drop_last();
        law_parameters_name_binds(query, rest);
        assert forall|i: int| 0 <= i < rest.len() implies rest[i] == #[trigger] parameters[i] by {}
        assert(parameters[parameters.len() - 1] == parameters.last());
        if parameters_verdict(query, rest) is Some {
            let i = choose|i: int| 0 <= i < rest.len() && !is_bind_name((#[trigger] rest[i]).0);
            assert(parameters[i] == rest[i]);
        } else {
            assert forall|i: int| 0 <= i < rest.len() implies is_bind_name(
                (#[trigger] parameters[i]).0,
            ) by {
                assert(rest[i] == parameters[i]);
            }
        }
    }
}

/// A query is accepted exactly when its statement is read-only, it has an interval and a
/// timeout, asks for at least one row and for no more than a thousand and twenty-four batches
/// of them, and its output and parameters are in order.
pub proof fn law_accepted_queries_are_bounded(
    name: Seq<char>,
    query: QueryConfig,
    limits: LimitsConfig,
)
    ensures
        query_verdict(name, query, limits) is None <==> starts_read_only(query.sql@)
            && query.interval@ >= 1 && query.timeout@ >= 1 && 1 <= query.pagination.max_rows
            <= 1024 * limits.max_batch_rows && included_verdict(
            name,
            query.output.include_columns@,
        ) is None && targets_verdict(name, query.output.attributes@) is None && (
        query.output.timestamp matches Some(timestamp) ==> !text::is_blank(timestamp.column@))
            && parameters_verdict(name, query.parameters@) is None,
{
    text::law_first_word_is_the_first_run(query.sql@);
    if text::is_blank(query.sql@) {
        assert(text::first_word(query.sql@) is None);
    }
}

/// Whether one query is accepted under its name.
pub open spec fn is_accepted(entry: (Seq<char>, QueryConfig), limits: LimitsConfig) -> bool {
    query_name_verdict(entry.0) is None && query_verdict(entry.0, entry.1, limits) is None
}

/// Queries are accepted exactly when each is, and what is reported of the others is about the
/// first that is not.
pub proof fn law_queries_are_judged_in_order(
    queries: Seq<(Seq<char>, QueryConfig)>,
    limits: LimitsConfig,
)
    ensures
        queries_verdict(queries, limits) is None <==> forall|i: int|
            0 <= i < queries.len() ==> is_accepted(#[trigger] queries[i], limits),
        queries_verdict(queries, limits) matches Some(message) ==> exists|i: int|
            0 <= i < queries.len() && (query_name_verdict((#[trigger] queries[i]).0) == Some(
                message,
            ) || query_verdict(queries[i].0, queries[i].1, limits) == Some(message)) && (forall|
                j: int,
            |
                0 <= j < i ==> is_accepted(#[trigger] queries[j], limits)),
    decreases queries.len(),
{
    if queries.len() > 0 {
        let rest = queries.drop_last();
        let last = queries.len() - 1;
        law_queries_are_judged_in_order(rest, limits);
        assert(queries[last] == queries.last());
        if queries_verdict(rest, limits) is Some {
            let message = queries_verdict(rest, limits)->0;
            let i = choose|i: int|
                0 <= i < rest.len() && (query_name_verdict((#[trigger] rest[i]).0) == Some(message)
                    || query_verdict(rest[i].0, rest[i].1, limits) == Some(message)) && (forall|
                    j: int,
                |
                    0 <= j < i ==> is_accepted(#[trigger] rest[j], limits));
            assert(queries[i] == rest[i]);
            assert(!is_accepted(queries[i], limits));
            assert forall|j: int| 0 <= j < i implies is_accepted(#[trigger] queries[j], limits) by {
                assert(rest[j] == queries[j]);
            }
        } else {
            assert forall|j: int| 0 <= j < last implies is_accepted(
                #[trigger] queries[j],
                limits,
            ) by {
                assert(rest[j] == queries[j]);
            }
        }
    }
}

/// A configuration is accepted exactly when its limits, delays, queries and resource
/// attributes all are, with one to a thousand and twenty-four queries.
pub proof fn law_accepted_configurations_hold_together<C>(config: DatabaseReceiverConfig<C>)
    ensures
        config_verdict(config) is None <==> limits_verdict(config.limits) is None
            && scheduling_verdict(config.scheduling) is None && retry_verdict(config.retry) is None
            && 1 <= config.queries@.len() <= 1024 && queries_verdict(
            config.queries@,
            config.limits,
        ) is None && attributes_verdict(config.resource_attributes@) is None,
{
}

} // verus!
