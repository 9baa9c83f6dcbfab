//! The decisions of one PostgreSQL session: what may run, how a failed operation is cleaned
//! up, and how the session ends.
//!
//! The connection itself is driven from outside: it performs each step and reports back.

use crate::database::receiver::ReceiverErrorKind;
use crate::database::row::{copy_columns, ColumnMetadata};
use crate::polling::{CompiledQuery, CompositeCursor, QueryPage};
use crate::postgresql::error::PgError;
use crate::postgresql::page;
use crate::postgresql::page::{PageBuilder, PageModel, Position};
use crate::postgresql::timestamp;
use crate::text;
use crate::text::{append_long_decimal, owned, same};
use crate::time::Duration;
use vstd::prelude::*;

verus! {

/// How long cleaning up may take, in seconds.
pub const CLEANUP_TIMEOUT_SECS: u64 = 3;

/// The result columns of a validated statement and where the cursor's stand.
pub struct Schema {
    /// The columns.
    pub columns: Vec<ColumnMetadata>,
    /// The timestamp's and the tie-breaker's place.
    pub indices: (usize, usize),
}

/// What a session knows.
pub struct SessionState {
    expected_sql: String,
    connected: bool,
    schema: Option<Schema>,
    cleanup_failed: bool,
}

/// What a session knows.
pub struct SessionModel {
    pub expected_sql: Seq<char>,
    pub connected: bool,
    pub schema: Option<(Seq<ColumnMetadata>, (usize, usize))>,
    pub cleanup_failed: bool,
}

impl View for SessionState {
    type V = SessionModel;

    closed spec fn view(&self) -> SessionModel {
        SessionModel {
            expected_sql: self.expected_sql@,
            connected: self.connected,
            schema: match self.schema {
                Some(schema) => Some((schema.columns@, schema.indices)),
                None => None,
            },
            cleanup_failed: self.cleanup_failed,
        }
    }
}

/// Whether the cursor's columns are among a result's.
pub open spec fn is_schema(columns: Seq<ColumnMetadata>, indices: (usize, usize)) -> bool {
    indices.0 < columns.len() && indices.1 < columns.len()
}

/// The invariant of a session: only a connected one has a validated statement.
pub open spec fn session_valid(session: SessionModel) -> bool {
    match session.schema {
        Some((columns, indices)) => session.connected && is_schema(columns, indices),
        None => true,
    }
}

/// What has to be done before a query runs.
#[derive(Clone, Copy, Debug, PartialEq, Eq, Structural)]
pub enum Start {
    /// A connection has to be made.
    Connect,
    /// Nothing.
    Ready,
}

/// One step of cleaning up after a failed operation.
#[derive(Clone, Copy, Debug, PartialEq, Eq, Structural)]
pub enum CleanupStep {
    /// Ask the server to cancel what runs.
    Cancel,
    /// Roll back.
    Rollback,
    /// Roll back once more: the cancellation hit the first rollback.
    RollbackAgain,
    /// The server has finished the operation.
    Confirmed,
    /// Whether the server has finished is not known.
    Unconfirmed,
}

/// What came of a step.
#[derive(Clone, Copy, Debug, PartialEq, Eq, Structural)]
pub enum StepReply {
    /// It succeeded.
    Done,
    /// The server cancelled it.
    Canceled,
    /// It failed in another way, or too late.
    Failed,
}

/// The first step of cleaning up. Only an operation that may still run is cancelled.
pub open spec fn first_cleanup(error: PgError) -> CleanupStep {
    match error {
        PgError::Timeout => CleanupStep::Cancel,
        PgError::Cancelled => CleanupStep::Cancel,
        _ => CleanupStep::Rollback,
    }
}

/// The step after a step. A rollback that a late cancellation hit is made once more.
pub open spec fn next_cleanup(step: CleanupStep, reply: StepReply) -> CleanupStep {
    match (step, reply) {
        (CleanupStep::Cancel, StepReply::Done) => CleanupStep::Rollback,
        (CleanupStep::Rollback, StepReply::Done) => CleanupStep::Confirmed,
        (CleanupStep::Rollback, StepReply::Canceled) => CleanupStep::RollbackAgain,
        (CleanupStep::RollbackAgain, StepReply::Done) => CleanupStep::Confirmed,
        (CleanupStep::Confirmed, _) => CleanupStep::Confirmed,
        _ => CleanupStep::Unconfirmed,
    }
}

/// How many more steps cleaning up takes at most.
pub open spec fn steps_left(step: CleanupStep) -> nat {
    match step {
        CleanupStep::Cancel => 3,
        CleanupStep::Rollback => 2,
        CleanupStep::RollbackAgain => 1,
        CleanupStep::Confirmed => 0,
        CleanupStep::Unconfirmed => 0,
    }
}

/// Chooses the first step of cleaning up after a failed operation.
pub fn begin_cleanup(error: PgError) -> (step: CleanupStep)
    ensures
        step == first_cleanup(error),
{
    match error {
        PgError::Timeout => CleanupStep::Cancel,
        PgError::Cancelled => CleanupStep::Cancel,
        _ => CleanupStep::Rollback,
    }
}

/// Chooses the step after a step.
pub fn continue_cleanup(step: CleanupStep, reply: StepReply) -> (next: CleanupStep)
    ensures
        next == next_cleanup(step, reply),
{
    match (step, reply) {
        (CleanupStep::Cancel, StepReply::Done) => CleanupStep::Rollback,
        (CleanupStep::Rollback, StepReply::Done) => CleanupStep::Confirmed,
        (CleanupStep::Rollback, StepReply::Canceled) => CleanupStep::RollbackAgain,
        (CleanupStep::RollbackAgain, StepReply::Done) => CleanupStep::Confirmed,
        (CleanupStep::Confirmed, _) => CleanupStep::Confirmed,
        _ => CleanupStep::Unconfirmed,
    }
}

/// What a failed operation is reported as. One that could not be cleaned up is reported as
/// that.
pub open spec fn settled(error: PgError, step: CleanupStep) -> PgError {
    if step is Confirmed {
        error
    } else {
        PgError::Cleanup
    }
}

/// Which kind of receiver failure a driver failure is.
pub open spec fn failure_kind(error: PgError) -> ReceiverErrorKind {
    match error {
        PgError::Credentials => ReceiverErrorKind::Configuration,
        PgError::Tls => ReceiverErrorKind::Configuration,
        PgError::Metadata => ReceiverErrorKind::Configuration,
        PgError::UnsupportedType => ReceiverErrorKind::Configuration,
        PgError::NotValidated => ReceiverErrorKind::Configuration,
        PgError::Cursor => ReceiverErrorKind::Configuration,
        PgError::RowTooLarge => ReceiverErrorKind::Configuration,
        PgError::Connect => ReceiverErrorKind::Connect,
        PgError::Cleanup => ReceiverErrorKind::Shutdown,
        PgError::Cancelled => ReceiverErrorKind::Shutdown,
        PgError::Query => ReceiverErrorKind::Transport,
        PgError::Timeout => ReceiverErrorKind::Transport,
        PgError::Conversion => ReceiverErrorKind::Transport,
    }
}

/// Tells which kind of receiver failure a driver failure is.
pub fn classify_error(error: &PgError) -> (kind: ReceiverErrorKind)
    ensures
        kind == failure_kind(*error),
{
    match error {
        PgError::Credentials => ReceiverErrorKind::Configuration,
        PgError::Tls => ReceiverErrorKind::Configuration,
        PgError::Metadata => ReceiverErrorKind::Configuration,
        PgError::UnsupportedType => ReceiverErrorKind::Configuration,
        PgError::NotValidated => ReceiverErrorKind::Configuration,
        PgError::Cursor => ReceiverErrorKind::Configuration,
        PgError::RowTooLarge => ReceiverErrorKind::Configuration,
        PgError::Connect => ReceiverErrorKind::Connect,
        PgError::Cleanup => ReceiverErrorKind::Shutdown,
        PgError::Cancelled => ReceiverErrorKind::Shutdown,
        _ => ReceiverErrorKind::Transport,
    }
}

/// The statement that bounds the statements of a transaction, in milliseconds. Nothing of it
/// comes from an operator's SQL.
pub fn statement_timeout(timeout: &Duration) -> (sql: String)
    ensures
        sql@ == "SET LOCAL statement_timeout = "@ + text::decimal(timeout@ / 1_000_000),
{
    let mut sql = owned("SET LOCAL statement_timeout = ");
    append_long_decimal(&mut sql, timeout.as_millis());
    sql
}

/// Checks that a source is polled from one core only.
pub fn require_single_core(cores: usize) -> (r: Result<(), String>)
    ensures
        text::agrees(
            r,
            if cores == 1 {
                None
            } else {
                Some("the PostgreSQL receiver requires a single-core pipeline"@)
            },
        ),
{
    if cores != 1 {
        return Err(owned("the PostgreSQL receiver requires a single-core pipeline"));
    }
    Ok(())
}

impl SessionState {
    /// A session that is not connected yet and runs one statement only.
    pub fn new(expected_sql: String) -> (r: Self)
        ensures
            r@ == (SessionModel {
                expected_sql: expected_sql@,
                connected: false,
                schema: None,
                cleanup_failed: false,
            }),
            session_valid(r@),
    {
        SessionState { expected_sql, connected: false, schema: None, cleanup_failed: false }
    }

    /// Decides whether a query may run, and what has to be done first.
    pub fn start(&self, query: &CompiledQuery) -> (r: Result<Start, PgError>)
        ensures
            r == if query.statement() != self@.expected_sql {
                Err::<Start, PgError>(PgError::NotValidated)
            } else if self@.connected {
                Ok(Start::Ready)
            } else {
                Ok(Start::Connect)
            },
    {
        if !same(query.sql(), self.expected_sql.as_str()) {
            return Err(PgError::NotValidated);
        }
        if self.connected {
            Ok(Start::Ready)
        } else {
            Ok(Start::Connect)
        }
    }

    /// Takes note that a connection was made. A new connection has validated nothing.
    pub fn connected(&mut self)
        ensures
            final(self)@ == (SessionModel { connected: true, schema: None, ..old(self)@ }),
            session_valid(final(self)@),
    {
        self.connected = true;
        self.schema = None;
    }

    /// Keeps the validated result columns, and gives the page that validation returns: the
    /// columns and no rows.
    pub fn validated(&mut self, columns: Vec<ColumnMetadata>, indices: (usize, usize)) -> (page:
        QueryPage)
        requires
            old(self)@.connected,
            is_schema(columns@, indices),
        ensures
            final(self)@ == (SessionModel { schema: Some((columns@, indices)), ..old(self)@ }),
            session_valid(final(self)@),
            page.columns@ == columns@,
            page.rows@.len() == 0,
    {
        let copied = copy_columns(&columns);
        self.schema = Some(Schema { columns, indices });
        QueryPage { columns: copied, rows: Vec::new() }
    }

    /// Starts a page after a committed cursor. Only a validated statement has pages.
    pub fn begin_page(&self, query: &CompiledQuery, cursor: &CompositeCursor) -> (r: Result<
        PageBuilder,
        PgError,
    >)
        requires
            session_valid(self@),
        ensures
            match r {
                Ok(builder) => {
                    &&& page::page_valid(builder@)
                    &&& builder.in_step()
                    &&& self@.schema is Some
                    &&& timestamp::cursor_moment(cursor.timestamp@) is Some
                    &&& builder@ == (PageModel {
                        columns: (self@.schema->0).0,
                        indices: (self@.schema->0).1,
                        max_rows: query.bounds().max_rows_per_poll as nat,
                        fetch_size: query.bounds().fetch_size_rows as nat,
                        limit: query.bounds().max_batch_bytes,
                        start: Position {
                            moment: timestamp::cursor_moment(cursor.timestamp@)->0,
                            id: cursor.tie_breaker,
                        },
                        rows: Seq::empty(),
                        costs: Seq::empty(),
                        slots: 0,
                        used: 0,
                        done: false,
                    })
                },
                Err(error) => if self@.schema is None {
                    error == PgError::NotValidated
                } else {
                    error == PgError::Cursor && timestamp::cursor_moment(cursor.timestamp@) is None
                },
            },
    {
        match &self.schema {
            None => Err(PgError::NotValidated),
            Some(schema) => PageBuilder::new(
                copy_columns(&schema.columns),
                schema.indices,
                query.max_rows(),
                query.fetch_size_rows(),
                query.max_batch_bytes(),
                cursor,
            ),
        }
    }

    /// Takes note of how cleaning up after a failed operation ended, and gives what the
    /// operation is reported as.
    pub fn settle(&mut self, error: PgError, step: CleanupStep) -> (r: PgError)
        requires
            session_valid(old(self)@),
        ensures
            r == settled(error, step),
            final(self)@ == (SessionModel {
                cleanup_failed: old(self)@.cleanup_failed || !(step is Confirmed),
                ..old(self)@
            }),
            session_valid(final(self)@),
    {
        match step {
            CleanupStep::Confirmed => error,
            _ => {
                self.cleanup_failed = true;
                PgError::Cleanup
            },
        }
    }

    /// Ends the session, given whether the connection's task ended well.
    pub fn close(&mut self, ended_well: bool) -> (r: Result<(), PgError>)
        ensures
            r == if (old(self)@.connected && !ended_well) || old(self)@.cleanup_failed {
                Err::<(), PgError>(PgError::Cleanup)
            } else {
                Ok(())
            },
            final(self)@ == (SessionModel { connected: false, schema: None, ..old(self)@ }),
            session_valid(final(self)@),
    {
        let was_connected: bool = self.connected;
        self.connected = false;
        self.schema = None;
        if was_connected && !ended_well {
            return Err(PgError::Cleanup);
        }
        if self.cleanup_failed {
            Err(PgError::Cleanup)
        } else {
            Ok(())
        }
    }
}

/// Cleaning up ends: every step leaves fewer steps, whatever comes of it.
pub proof fn law_cleanup_ends(step: CleanupStep, reply: StepReply)
    ensures
        steps_left(step) > 0 ==> steps_left(next_cleanup(step, reply)) < steps_left(step),
        steps_left(step) == 0 <==> step is Confirmed || step is Unconfirmed,
{
}

/// Only a rollback that the server confirmed leaves the original failure to be reported.
pub proof fn law_unconfirmed_cleanup_is_reported(error: PgError, step: CleanupStep, reply: StepReply)
    ensures
        next_cleanup(step, reply) is Confirmed && !(step is Confirmed) ==> (step is Rollback
            || step is RollbackAgain) && reply is Done,
        !(step is Confirmed) ==> settled(error, step) == PgError::Cleanup,
{
}

/// A failed operation is cancelled first exactly when it may still run, for it was timed out
/// or cancelled; any other is rolled back at once.
pub proof fn law_running_operations_are_cancelled_first(error: PgError)
    ensures
        first_cleanup(error) is Cancel <==> error is Timeout || error is Cancelled,
        first_cleanup(error) is Rollback <==> !(error is Timeout) && !(error is Cancelled),
{
}

/// Cleaning up is confirmed only by a rollback that was done: a cancellation leads to the
/// rollback, a rollback that a late cancellation hit is made once more, and anything that
/// fails leaves the session unconfirmed for good.
pub proof fn law_cleanup_is_confirmed_by_a_rollback(step: CleanupStep, reply: StepReply)
    ensures
        next_cleanup(step, reply) is Confirmed <==> step is Confirmed || (reply is Done && (
        step is Rollback || step is RollbackAgain)),
        next_cleanup(step, reply) is Rollback <==> step is Cancel && reply is Done,
        next_cleanup(step, reply) is RollbackAgain <==> step is Rollback && reply is Canceled,
        !(next_cleanup(step, reply) is Cancel),
        step is Unconfirmed ==> next_cleanup(step, reply) is Unconfirmed,
        settled(PgError::Query, step) is Cleanup <==> !(step is Confirmed),
{
}

/// A failure is reported as itself where its cleaning up was confirmed, and as one of cleaning
/// up where it was not.
pub proof fn law_settled_failures_tell_the_worst(error: PgError, step: CleanupStep)
    ensures
        step is Confirmed ==> settled(error, step) == error,
        !(step is Confirmed) ==> settled(error, step) == PgError::Cleanup,
{
}

/// A failure to connect is a connection's, one of cleaning up or cancelling belongs to
/// shutting down, one of the query, the deadline or a value is a transport's, and all that is
/// left is for the configuration to mend.
pub proof fn law_driver_failures_are_classified(error: PgError)
    ensures
        failure_kind(error) is Connect <==> error is Connect,
        failure_kind(error) is Shutdown <==> error is Cleanup || error is Cancelled,
        failure_kind(error) is Transport <==> error is Query || error is Timeout
            || error is Conversion,
        failure_kind(error) is Configuration <==> error is Credentials || error is Tls
            || error is Metadata || error is UnsupportedType || error is NotValidated
            || error is Cursor || error is RowTooLarge,
        !(failure_kind(error) is Other),
{
}

/// Only a connected session has a validated statement, and its cursor's columns are among the
/// result's.
pub proof fn law_validated_sessions_are_connected(session: SessionModel)
    requires
        session_valid(session),
    ensures
        session.schema matches Some((columns, indices)) ==> session.connected && indices.0 as int
            + 1 <= columns.len() && indices.1 as int + 1 <= columns.len(),
{
}

} // verus!
