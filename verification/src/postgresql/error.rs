//! Sanitized PostgreSQL driver failures.

use vstd::prelude::*;

verus! {

/// Driver failures; no variant carries SQL, row values or server text.
#[derive(Clone, Copy, Debug, PartialEq, Eq, Structural)]
pub enum PgError {
    /// A credential file could not be read or was invalid.
    Credentials,
    /// CA material or the process crypto provider is invalid.
    Tls,
    /// Connection, TLS verification, or login failed.
    Connect,
    /// Server rejected query or transaction work.
    Query,
    /// Page operation exceeded its configured deadline.
    Timeout,
    /// Cancellation was requested.
    Cancelled,
    /// Required cleanup could not be confirmed.
    Cleanup,
    /// Query has not passed startup validation.
    NotValidated,
    /// Schema does not satisfy the supported cursor/output contract.
    Metadata,
    /// An output scalar cannot be normalized losslessly.
    Conversion,
    /// Output type is outside this adapter's supported set.
    UnsupportedType,
    /// A single row cannot fit the configured page memory bound.
    RowTooLarge,
    /// Source cursor was null or not strictly ordered.
    Cursor,
}

/// What an operator is told of each failure.
pub open spec fn pg_message(error: PgError) -> Seq<char> {
    match error {
        PgError::Credentials => "PostgreSQL credential file is unreadable, empty or oversized"@,
        PgError::Tls => "PostgreSQL TLS configuration is invalid"@,
        PgError::Connect => "PostgreSQL connection, server verification or authentication failed"@,
        PgError::Query => "PostgreSQL query operation failed"@,
        PgError::Timeout => "PostgreSQL operation exceeded query.timeout"@,
        PgError::Cancelled => "PostgreSQL operation cancelled"@,
        PgError::Cleanup => "PostgreSQL cancellation or cleanup could not be confirmed"@,
        PgError::NotValidated => "PostgreSQL query must be validated before execution"@,
        PgError::Metadata => "PostgreSQL result requires distinct columns and non-null timestamp/integer cursor columns"@,
        PgError::Conversion => "PostgreSQL value cannot be normalized without loss"@,
        PgError::UnsupportedType => "PostgreSQL result contains an unsupported type"@,
        PgError::RowTooLarge => "PostgreSQL row exceeds max_batch_bytes"@,
        PgError::Cursor => "PostgreSQL cursor is null, invalid or does not strictly advance"@,
    }
}

impl PgError {
    /// What an operator is told of this failure.
    pub fn message(&self) -> (text: &'static str)
        ensures
            text@ == pg_message(*self),
    {
        match self {
            PgError::Credentials => "PostgreSQL credential file is unreadable, empty or oversized",
            PgError::Tls => "PostgreSQL TLS configuration is invalid",
            PgError::Connect => "PostgreSQL connection, server verification or authentication failed",
            PgError::Query => "PostgreSQL query operation failed",
            PgError::Timeout => "PostgreSQL operation exceeded query.timeout",
            PgError::Cancelled => "PostgreSQL operation cancelled",
            PgError::Cleanup => "PostgreSQL cancellation or cleanup could not be confirmed",
            PgError::NotValidated => "PostgreSQL query must be validated before execution",
            PgError::Metadata => "PostgreSQL result requires distinct columns and non-null timestamp/integer cursor columns",
            PgError::Conversion => "PostgreSQL value cannot be normalized without loss",
            PgError::UnsupportedType => "PostgreSQL result contains an unsupported type",
            PgError::RowTooLarge => "PostgreSQL row exceeds max_batch_bytes",
            PgError::Cursor => "PostgreSQL cursor is null, invalid or does not strictly advance",
        }
    }
}

} // verus!
