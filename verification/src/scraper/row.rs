//! Closed database-neutral row model.

use crate::double::Double;
use vstd::prelude::*;

verus! {

/// The columns of a result.
#[derive(Debug)]
pub struct ResultSchema {
    /// The columns in order.
    pub columns: Vec<Column>,
}

/// One result column.
#[derive(Debug)]
pub struct Column {
    /// Its name.
    pub name: String,
    /// Whether it may hold NULL.
    pub nullable: bool,
    /// Its type as the source names it.
    pub source_type: String,
}

/// One row.
pub struct DatabaseRow {
    /// A value for each column.
    pub values: Vec<CellValue>,
}

/// A scalar value.
pub enum CellValue {
    /// SQL NULL.
    Null,
    /// Boolean.
    Bool(bool),
    /// Signed integer.
    Int64(i64),
    /// Unsigned integer.
    UInt64(u64),
    /// Exact decimal text.
    Decimal(String),
    /// IEEE-754 value.
    Float64(Double),
    /// Text.
    String(String),
    /// Bytes.
    Bytes(Vec<u8>),
    /// Calendar date text.
    Date(String),
    /// Timestamp text without a time zone.
    Timestamp(String),
    /// Timestamp text with a time zone.
    TimestampWithTimezone(String),
    /// Interval text.
    Interval(String),
    /// JSON text.
    Json(String),
    /// UUID text.
    Uuid(String),
}

/// Takes in rows until it has enough.
pub trait RowSink {
    /// Takes in one row, or says why not.
    fn try_push(&mut self, row: DatabaseRow) -> Result<(), RowSinkError>;
}

/// Why a row was not taken in.
#[derive(Clone, Copy, Debug, PartialEq, Eq, Structural)]
pub enum RowSinkError {
    /// The page has all its rows.
    RowLimitReached,
    /// The page has all its bytes.
    NormalizedByteLimitReached,
    /// One value is too large for any page.
    OversizedValue,
    /// Reading was cancelled.
    Cancelled,
}

} // verus!
