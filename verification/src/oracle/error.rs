//! Oracle connection, query, and conversion failures.
//!
//! Native error messages may hold SQL, endpoints, rows or cursors. Only the operation and
//! numeric codes are kept of them.

use crate::database::receiver::ReceiverErrorKind;
use crate::text;
use crate::text::{append_decimal, append_signed, append_text, joined, owned};
use vstd::prelude::*;

verus! {

/// The numeric codes of a native failure.
#[derive(Clone, Copy, Debug, PartialEq, Eq, Structural)]
pub struct NativeCodes {
    /// The database's code.
    pub oci: Option<i32>,
    /// The client library's code.
    pub dpi: Option<i32>,
}

/// Oracle connection, query, or conversion failure.
#[derive(Debug)]
pub enum OracleAdapterError {
    /// A mounted credential file could not be read.
    Credential(&'static str),
    /// A mounted credential path is not a regular file.
    CredentialNotRegularFile(&'static str),
    /// A mounted credential file exceeds the fixed allocation bound.
    CredentialTooLarge(&'static str),
    /// A mounted credential file is not UTF-8.
    InvalidCredentialEncoding(&'static str),
    /// A mounted credential file was empty.
    EmptyCredential(&'static str),
    /// Oracle client initialization failed.
    Initialize(NativeCodes),
    /// Oracle was already initialized outside this adapter.
    ClientAlreadyInitialized,
    /// Another adapter selected a different process-global client directory.
    ClientDirectoryConflict,
    /// Oracle client initialization state was poisoned.
    ClientInitializationLock,
    /// Connection establishment or validation failed.
    Connect(NativeCodes),
    /// Bounds cannot be injected into a connect descriptor.
    ConnectDescriptorUnsupported,
    /// Connection timeout properties are owned by the receiver's query timeout.
    ConnectTimeoutOverride,
    /// Connection retry controls would defeat the bounded startup attempt.
    ConnectRetryUnsupported,
    /// Multiple addresses would multiply the per-attempt startup timeout.
    MultipleAddressUnsupported,
    /// Session or timeout setup failed.
    Configure(NativeCodes),
    /// Statement preparation failed.
    Prepare(NativeCodes),
    /// Query execution failed.
    Query(NativeCodes),
    /// Row fetching failed.
    Fetch(NativeCodes),
    /// Native value conversion failed.
    Convert(NativeCodes),
    /// A floating-point result cannot be represented faithfully.
    NonFiniteFloat,
    /// The result type does not have bounded conversion support.
    UnsupportedType(String),
    /// A cached statement was invalidated with a different result shape.
    ResultMetadataChanged,
    /// A configured cursor column is absent from live result metadata.
    MissingCursorColumn(String),
    /// Cursor nullability must be excluded by the source schema.
    NullableCursorColumn,
    /// The timestamp cursor column is not an Oracle date or timestamp type.
    UnsupportedCursorTimestamp {
        /// Configured cursor column.
        column: String,
        /// Live Oracle type name.
        data_type: String,
    },
    /// The tie-breaker cursor column is not an integral Oracle type.
    UnsupportedCursorTieBreaker {
        /// Configured cursor column.
        column: String,
        /// Live Oracle type name.
        data_type: String,
    },
    /// A row's cursor component was SQL NULL.
    NullCursorValue(String),
    /// The committed cursor timestamp cannot be bound to Oracle: why not, without native text.
    InvalidCursorTimestamp(&'static str),
    /// The first row alone exceeds the normalized in-memory ceiling.
    NormalizedByteLimit {
        /// Normalized size of the single row.
        normalized_bytes: u64,
        /// Configured normalized-byte ceiling.
        limit: u64,
    },
    /// Blocking Oracle execution could not be joined.
    Worker,
    /// Cancellation state could not be synchronized with the blocking worker.
    CancellationState,
    /// Native Oracle cancellation could not be joined.
    CancellationWorker,
    /// Oracle rejected a request to interrupt the active call.
    Cancellation(NativeCodes),
    /// An operation was cancelled before it registered its connection.
    Cancelled,
}

/// A code as it is written in messages.
pub open spec fn code_text(code: Option<i32>) -> Seq<char> {
    match code {
        Some(code) => "Some("@ + text::signed_decimal(code as int) + ")"@,
        None => "None"@,
    }
}

/// The codes as they are written in messages.
pub open spec fn codes_text(codes: NativeCodes) -> Seq<char> {
    " (OCI "@ + code_text(codes.oci) + ", DPI "@ + code_text(codes.dpi) + ")"@
}

/// What an operator is told of each failure.
pub open spec fn description(error: OracleAdapterError) -> Seq<char> {
    match error {
        OracleAdapterError::Credential(kind) => "failed to read Oracle "@ + kind@ + " file"@,
        OracleAdapterError::CredentialNotRegularFile(kind) => "Oracle "@ + kind@
            + " path must reference a regular file"@,
        OracleAdapterError::CredentialTooLarge(kind) => "Oracle "@ + kind@
            + " file must not exceed 64 KiB"@,
        OracleAdapterError::InvalidCredentialEncoding(kind) => "Oracle "@ + kind@
            + " file must contain valid UTF-8"@,
        OracleAdapterError::EmptyCredential(kind) => "Oracle "@ + kind@
            + " file must not be empty"@,
        OracleAdapterError::Initialize(codes) => "Oracle client initialization failed"@
            + codes_text(codes),
        OracleAdapterError::ClientAlreadyInitialized =>
            "Oracle client was initialized before instant_client_dir was applied"@,
        OracleAdapterError::ClientDirectoryConflict =>
            "instant_client_dir conflicts with the initialized Oracle client"@,
        OracleAdapterError::ClientInitializationLock =>
            "Oracle client initialization lock was poisoned"@,
        OracleAdapterError::Connect(codes) => "Oracle connection failed"@ + codes_text(codes),
        OracleAdapterError::ConnectDescriptorUnsupported =>
            "Oracle connect descriptors are not supported; use an Easy Connect string"@,
        OracleAdapterError::ConnectTimeoutOverride =>
            "Oracle connect string must not override receiver connection timeouts"@,
        OracleAdapterError::ConnectRetryUnsupported =>
            "Oracle connect string must not configure retry_count or retry_delay"@,
        OracleAdapterError::MultipleAddressUnsupported =>
            "Oracle connect string must contain exactly one database address"@,
        OracleAdapterError::Configure(codes) => "Oracle session configuration failed"@
            + codes_text(codes),
        OracleAdapterError::Prepare(codes) => "Oracle query preparation failed"@ + codes_text(
            codes,
        ),
        OracleAdapterError::Query(codes) => "Oracle query execution failed"@ + codes_text(codes),
        OracleAdapterError::Fetch(codes) => "Oracle row fetch failed"@ + codes_text(codes),
        OracleAdapterError::Convert(codes) => "Oracle value conversion failed"@ + codes_text(codes),
        OracleAdapterError::NonFiniteFloat => "Oracle returned a non-finite floating-point value"@,
        OracleAdapterError::UnsupportedType(data_type) => "Oracle result type '"@ + data_type@
            + "' is not supported"@,
        OracleAdapterError::ResultMetadataChanged =>
            "Oracle query result metadata changed after startup validation"@,
        OracleAdapterError::MissingCursorColumn(column) => "watermark cursor column '"@ + column@
            + "' is not present in the query result"@,
        OracleAdapterError::NullableCursorColumn =>
            "watermark cursor columns must be declared NOT NULL"@,
        OracleAdapterError::UnsupportedCursorTimestamp { column, data_type } =>
            "watermark timestamp column '"@ + column@ + "' has unsupported type '"@ + data_type@
            + "'; DATE and TIMESTAMP family types are required"@,
        OracleAdapterError::UnsupportedCursorTieBreaker { column, data_type } =>
            "watermark tie-breaker column '"@ + column@ + "' has unsupported type '"@ + data_type@
            + "'; a scale-zero integral type is required"@,
        OracleAdapterError::NullCursorValue(column) => "watermark cursor column '"@ + column@
            + "' returned NULL; composite cursors must be non-null"@,
        OracleAdapterError::InvalidCursorTimestamp(_) =>
            "committed watermark timestamp is not a valid Oracle timestamp"@,
        OracleAdapterError::NormalizedByteLimit { normalized_bytes, limit } =>
            "the first database row normalizes to "@ + text::decimal(normalized_bytes as nat)
            + " bytes, exceeding the "@ + text::decimal(limit as nat)
            + "-byte budget from query.max_batch_bytes"@,
        OracleAdapterError::Worker => "Oracle worker failed"@,
        OracleAdapterError::CancellationState => "Oracle cancellation state is unavailable"@,
        OracleAdapterError::CancellationWorker => "Oracle cancellation worker failed"@,
        OracleAdapterError::Cancellation(codes) => "Oracle cancellation failed"@ + codes_text(
            codes,
        ),
        OracleAdapterError::Cancelled => "Oracle operation was cancelled"@,
    }
}

fn append_code(out: &mut String, code: Option<i32>)
    ensures
        final(out)@ == old(out)@ + code_text(code),
{
    match code {
        Some(code) => {
            append_text(out, "Some(");
            append_signed(out, code as i64);
            append_text(out, ")");
        },
        None => {
            append_text(out, "None");
        },
    }
    assert(out@ =~= old(out)@ + code_text(code));
}

fn with_codes(what: &str, codes: &NativeCodes) -> (r: String)
    ensures
        r@ == what@ + codes_text(*codes),
{
    let mut out = owned(what);
    append_text(&mut out, " (OCI ");
    append_code(&mut out, codes.oci);
    append_text(&mut out, ", DPI ");
    append_code(&mut out, codes.dpi);
    append_text(&mut out, ")");
    assert(out@ =~= what@ + codes_text(*codes));
    out
}

fn joined_two(a: &str, b: &str, c: &str, d: &str, e: &str) -> (r: String)
    ensures
        r@ == a@ + b@ + c@ + d@ + e@,
{
    let mut out = joined(a, b, c);
    append_text(&mut out, d);
    append_text(&mut out, e);
    out
}

impl OracleAdapterError {
    /// Describes the failure without native text, SQL or values.
    pub fn describe(&self) -> (r: String)
        ensures
            r@ == description(*self),
    {
        match self {
            OracleAdapterError::Credential(kind) => joined("failed to read Oracle ", kind, " file"),
            OracleAdapterError::CredentialNotRegularFile(kind) => joined(
                "Oracle ",
                kind,
                " path must reference a regular file",
            ),
            OracleAdapterError::CredentialTooLarge(kind) => joined(
                "Oracle ",
                kind,
                " file must not exceed 64 KiB",
            ),
            OracleAdapterError::InvalidCredentialEncoding(kind) => joined(
                "Oracle ",
                kind,
                " file must contain valid UTF-8",
            ),
            OracleAdapterError::EmptyCredential(kind) => joined(
                "Oracle ",
                kind,
                " file must not be empty",
            ),
            OracleAdapterError::Initialize(codes) => with_codes(
                "Oracle client initialization failed",
                codes,
            ),
            OracleAdapterError::ClientAlreadyInitialized => owned(
                "Oracle client was initialized before instant_client_dir was applied",
            ),
            OracleAdapterError::ClientDirectoryConflict => owned(
                "instant_client_dir conflicts with the initialized Oracle client",
            ),
            OracleAdapterError::ClientInitializationLock => owned(
                "Oracle client initialization lock was poisoned",
            ),
            OracleAdapterError::Connect(codes) => with_codes("Oracle connection failed", codes),
            OracleAdapterError::ConnectDescriptorUnsupported => owned(
                "Oracle connect descriptors are not supported; use an Easy Connect string",
            ),
            OracleAdapterError::ConnectTimeoutOverride => owned(
                "Oracle connect string must not override receiver connection timeouts",
            ),
            OracleAdapterError::ConnectRetryUnsupported => owned(
                "Oracle connect string must not configure retry_count or retry_delay",
            ),
            OracleAdapterError::MultipleAddressUnsupported => owned(
                "Oracle connect string must contain exactly one database address",
            ),
            OracleAdapterError::Configure(codes) => with_codes(
                "Oracle session configuration failed",
                codes,
            ),
            OracleAdapterError::Prepare(codes) => with_codes(
                "Oracle query preparation failed",
                codes,
            ),
            OracleAdapterError::Query(codes) => with_codes("Oracle query execution failed", codes),
            OracleAdapterError::Fetch(codes) => with_codes("Oracle row fetch failed", codes),
            OracleAdapterError::Convert(codes) => with_codes(
                "Oracle value conversion failed",
                codes,
            ),
            OracleAdapterError::NonFiniteFloat => owned(
                "Oracle returned a non-finite floating-point value",
            ),
            OracleAdapterError::UnsupportedType(data_type) => joined(
                "Oracle result type '",
                data_type.as_str(),
                "' is not supported",
            ),
            OracleAdapterError::ResultMetadataChanged => owned(
                "Oracle query result metadata changed after startup validation",
            ),
            OracleAdapterError::MissingCursorColumn(column) => joined(
                "watermark cursor column '",
                column.as_str(),
                "' is not present in the query result",
            ),
            OracleAdapterError::NullableCursorColumn => owned(
                "watermark cursor columns must be declared NOT NULL",
            ),
            OracleAdapterError::UnsupportedCursorTimestamp { column, data_type } => joined_two(
                "watermark timestamp column '",
                column.as_str(),
                "' has unsupported type '",
                data_type.as_str(),
                "'; DATE and TIMESTAMP family types are required",
            ),
            OracleAdapterError::UnsupportedCursorTieBreaker { column, data_type } => joined_two(
                "watermark tie-breaker column '",
                column.as_str(),
                "' has unsupported type '",
                data_type.as_str(),
                "'; a scale-zero integral type is required",
            ),
            OracleAdapterError::NullCursorValue(column) => joined(
                "watermark cursor column '",
                column.as_str(),
                "' returned NULL; composite cursors must be non-null",
            ),
            OracleAdapterError::InvalidCursorTimestamp(_) => owned(
                "committed watermark timestamp is not a valid Oracle timestamp",
            ),
            OracleAdapterError::NormalizedByteLimit { normalized_bytes, limit } => {
                let mut out = owned("the first database row normalizes to ");
                append_decimal(&mut out, *normalized_bytes);
                append_text(&mut out, " bytes, exceeding the ");
                append_decimal(&mut out, *limit);
                append_text(&mut out, "-byte budget from query.max_batch_bytes");
                out
            },
            OracleAdapterError::Worker => owned("Oracle worker failed"),
            OracleAdapterError::CancellationState => owned(
                "Oracle cancellation state is unavailable",
            ),
            OracleAdapterError::CancellationWorker => owned("Oracle cancellation worker failed"),
            OracleAdapterError::Cancellation(codes) => with_codes(
                "Oracle cancellation failed",
                codes,
            ),
            OracleAdapterError::Cancelled => owned("Oracle operation was cancelled"),
        }
    }
}

/// Which kind of receiver failure an adapter failure is.
pub open spec fn failure_kind(error: OracleAdapterError) -> ReceiverErrorKind {
    match error {
        OracleAdapterError::Connect(_) => ReceiverErrorKind::Connect,
        OracleAdapterError::Configure(_) => ReceiverErrorKind::Transport,
        OracleAdapterError::Prepare(_) => ReceiverErrorKind::Transport,
        OracleAdapterError::Query(_) => ReceiverErrorKind::Transport,
        OracleAdapterError::Fetch(_) => ReceiverErrorKind::Transport,
        OracleAdapterError::Convert(_) => ReceiverErrorKind::Transport,
        OracleAdapterError::NullCursorValue(_) => ReceiverErrorKind::Transport,
        OracleAdapterError::CancellationState => ReceiverErrorKind::Shutdown,
        OracleAdapterError::CancellationWorker => ReceiverErrorKind::Shutdown,
        OracleAdapterError::Cancellation(_) => ReceiverErrorKind::Shutdown,
        OracleAdapterError::Cancelled => ReceiverErrorKind::Shutdown,
        OracleAdapterError::NonFiniteFloat => ReceiverErrorKind::Other,
        OracleAdapterError::Worker => ReceiverErrorKind::Other,
        _ => ReceiverErrorKind::Configuration,
    }
}

/// Maps adapter failures into stable receiver error categories.
pub fn classify_error(error: &OracleAdapterError) -> (kind: ReceiverErrorKind)
    ensures
        kind == failure_kind(*error),
{
    match error {
        OracleAdapterError::Connect(_) => ReceiverErrorKind::Connect,
        OracleAdapterError::Configure(_) => ReceiverErrorKind::Transport,
        OracleAdapterError::Prepare(_) => ReceiverErrorKind::Transport,
        OracleAdapterError::Query(_) => ReceiverErrorKind::Transport,
        OracleAdapterError::Fetch(_) => ReceiverErrorKind::Transport,
        OracleAdapterError::Convert(_) => ReceiverErrorKind::Transport,
        OracleAdapterError::NullCursorValue(_) => ReceiverErrorKind::Transport,
        OracleAdapterError::CancellationState => ReceiverErrorKind::Shutdown,
        OracleAdapterError::CancellationWorker => ReceiverErrorKind::Shutdown,
        OracleAdapterError::Cancellation(_) => ReceiverErrorKind::Shutdown,
        OracleAdapterError::Cancelled => ReceiverErrorKind::Shutdown,
        OracleAdapterError::NonFiniteFloat => ReceiverErrorKind::Other,
        OracleAdapterError::Worker => ReceiverErrorKind::Other,
        _ => ReceiverErrorKind::Configuration,
    }
}

/// A failure to connect is a connection's, one of cancelling belongs to shutting down, one of
/// a session, a statement, a fetch or a value is a transport's, one of the worker or of a value
/// that is no number is none of these, and all that is left is for the configuration to mend.
pub proof fn law_adapter_failures_are_classified(error: OracleAdapterError)
    ensures
        failure_kind(error) is Connect <==> error is Connect,
        failure_kind(error) is Shutdown <==> error is CancellationState
            || error is CancellationWorker || error is Cancellation || error is Cancelled,
        failure_kind(error) is Transport <==> error is Configure || error is Prepare
            || error is Query || error is Fetch || error is Convert || error is NullCursorValue,
        failure_kind(error) is Other <==> error is NonFiniteFloat || error is Worker,
        failure_kind(error) is Configuration <==> error is Credential
            || error is CredentialNotRegularFile || error is CredentialTooLarge
            || error is InvalidCredentialEncoding || error is EmptyCredential || error is Initialize
            || error is ClientAlreadyInitialized || error is ClientDirectoryConflict
            || error is ClientInitializationLock || error is ConnectDescriptorUnsupported
            || error is ConnectTimeoutOverride || error is ConnectRetryUnsupported
            || error is MultipleAddressUnsupported || error is UnsupportedType
            || error is ResultMetadataChanged || error is MissingCursorColumn
            || error is NullableCursorColumn || error is UnsupportedCursorTimestamp
            || error is UnsupportedCursorTieBreaker || error is InvalidCursorTimestamp
            || error is NormalizedByteLimit,
{
}

} // verus!
