//! Database-neutral values, metadata validation, and bounded row batching.

use crate::database::config::OversizePolicy;
use crate::database::query::ExecutionLimits;
use crate::double::Double;
use crate::text;
use crate::text::{append_decimal, append_text, byte_len};
use vstd::prelude::*;

verus! {

/// Closed database-neutral scalar value representation.
pub enum CellValue {
    /// SQL NULL.
    Null,
    /// Boolean.
    Bool(bool),
    /// Signed integer.
    Int64(i64),
    /// Unsigned integer.
    UInt64(u64),
    /// Exact decimal text preserving source precision.
    Decimal(String),
    /// IEEE-754 value.
    Float64(Double),
    /// UTF-8 text.
    String(String),
    /// Binary bytes.
    Bytes(Vec<u8>),
    /// Calendar date text.
    Date(String),
    /// Timestamp without source timezone.
    Timestamp(String),
    /// Timestamp with source timezone.
    TimestampTz(String),
    /// Database interval text.
    Interval(String),
    /// Valid JSON text.
    Json(String),
    /// UUID text.
    Uuid(String),
}

/// A scalar value as a mathematical value.
pub enum Cell {
    Null,
    Bool(bool),
    Int64(i64),
    UInt64(u64),
    Decimal(Seq<char>),
    Float64(Double),
    Text(Seq<char>),
    Bytes(Seq<u8>),
    Date(Seq<char>),
    Timestamp(Seq<char>),
    TimestampTz(Seq<char>),
    Interval(Seq<char>),
    Json(Seq<char>),
    Uuid(Seq<char>),
}

impl View for CellValue {
    type V = Cell;

    open spec fn view(&self) -> Cell {
        match self {
            CellValue::Null => Cell::Null,
            CellValue::Bool(value) => Cell::Bool(*value),
            CellValue::Int64(value) => Cell::Int64(*value),
            CellValue::UInt64(value) => Cell::UInt64(*value),
            CellValue::Decimal(value) => Cell::Decimal(value@),
            CellValue::Float64(value) => Cell::Float64(*value),
            CellValue::String(value) => Cell::Text(value@),
            CellValue::Bytes(value) => Cell::Bytes(value@),
            CellValue::Date(value) => Cell::Date(value@),
            CellValue::Timestamp(value) => Cell::Timestamp(value@),
            CellValue::TimestampTz(value) => Cell::TimestampTz(value@),
            CellValue::Interval(value) => Cell::Interval(value@),
            CellValue::Json(value) => Cell::Json(value@),
            CellValue::Uuid(value) => Cell::Uuid(value@),
        }
    }
}

/// A number of bytes as far as it can be counted.
pub open spec fn saturated(n: int) -> u64 {
    if n > u64::MAX {
        u64::MAX
    } else {
        n as u64
    }
}

/// Approximate normalized payload size of one value.
pub open spec fn cell_size(cell: Cell) -> nat {
    match cell {
        Cell::Null | Cell::Bool(_) => 1,
        Cell::Int64(_) | Cell::UInt64(_) | Cell::Float64(_) => 8,
        Cell::Decimal(value) => text::bytes_in(value),
        Cell::Text(value) => text::bytes_in(value),
        Cell::Date(value) => text::bytes_in(value),
        Cell::Timestamp(value) => text::bytes_in(value),
        Cell::TimestampTz(value) => text::bytes_in(value),
        Cell::Interval(value) => text::bytes_in(value),
        Cell::Json(value) => text::bytes_in(value),
        Cell::Uuid(value) => text::bytes_in(value),
        Cell::Bytes(value) => value.len(),
    }
}

/// Approximate normalized payload size of one value.
pub open spec fn cell_bytes(cell: CellValue) -> nat {
    cell_size(cell@)
}

/// A text payload as diagnostics show it: its size and nothing of its content.
pub open spec fn redacted(name: Seq<char>, bytes: nat) -> Seq<char> {
    name + "(<redacted:"@ + text::decimal(bytes) + " bytes>)"@
}

/// A value as diagnostics show it.
pub open spec fn cell_description(cell: CellValue) -> Seq<char> {
    match cell {
        CellValue::Null => "Null"@,
        CellValue::Bool(_) => "Bool(<redacted>)"@,
        CellValue::Int64(_) => "Int64(<redacted>)"@,
        CellValue::UInt64(_) => "UInt64(<redacted>)"@,
        CellValue::Float64(_) => "Float64(<redacted>)"@,
        CellValue::Decimal(_) => redacted("Decimal"@, cell_bytes(cell)),
        CellValue::String(_) => redacted("String"@, cell_bytes(cell)),
        CellValue::Bytes(_) => redacted("Bytes"@, cell_bytes(cell)),
        CellValue::Date(_) => redacted("Date"@, cell_bytes(cell)),
        CellValue::Timestamp(_) => redacted("Timestamp"@, cell_bytes(cell)),
        CellValue::TimestampTz(_) => redacted("TimestampTz"@, cell_bytes(cell)),
        CellValue::Interval(_) => redacted("Interval"@, cell_bytes(cell)),
        CellValue::Json(_) => redacted("Json"@, cell_bytes(cell)),
        CellValue::Uuid(_) => redacted("Uuid"@, cell_bytes(cell)),
    }
}

/// Whether two values are of the same kind.
pub open spec fn same_kind(a: CellValue, b: CellValue) -> bool {
    match a {
        CellValue::Null => b is Null,
        CellValue::Bool(_) => b is Bool,
        CellValue::Int64(_) => b is Int64,
        CellValue::UInt64(_) => b is UInt64,
        CellValue::Decimal(_) => b is Decimal,
        CellValue::Float64(_) => b is Float64,
        CellValue::String(_) => b is String,
        CellValue::Bytes(_) => b is Bytes,
        CellValue::Date(_) => b is Date,
        CellValue::Timestamp(_) => b is Timestamp,
        CellValue::TimestampTz(_) => b is TimestampTz,
        CellValue::Interval(_) => b is Interval,
        CellValue::Json(_) => b is Json,
        CellValue::Uuid(_) => b is Uuid,
    }
}

/// Diagnostics show the kind of a value and its size, and nothing more of it.
pub proof fn law_description_hides_content(a: CellValue, b: CellValue)
    requires
        same_kind(a, b),
        cell_bytes(a) == cell_bytes(b),
    ensures
        cell_description(a) == cell_description(b),
{
}

/// A text payload as diagnostics show it.
pub fn redacted_text(name: &str, bytes: usize) -> (r: String)
    ensures
        r@ == redacted(name@, bytes as nat),
{
    let mut r = String::new();
    append_text(&mut r, name);
    append_text(&mut r, "(<redacted:");
    append_decimal(&mut r, bytes as u64);
    append_text(&mut r, " bytes>)");
    assert(r@ =~= redacted(name@, bytes as nat));
    r
}

impl CellValue {
    /// Returns an approximate normalized payload size for admission accounting.
    pub fn normalized_size(&self) -> (bytes: u64)
        ensures
            bytes == cell_bytes(*self),
    {
        match self {
            CellValue::Null => 1,
            CellValue::Bool(_) => 1,
            CellValue::Int64(_) => 8,
            CellValue::UInt64(_) => 8,
            CellValue::Float64(_) => 8,
            CellValue::Decimal(value) => byte_len(value.as_str()) as u64,
            CellValue::String(value) => byte_len(value.as_str()) as u64,
            CellValue::Date(value) => byte_len(value.as_str()) as u64,
            CellValue::Timestamp(value) => byte_len(value.as_str()) as u64,
            CellValue::TimestampTz(value) => byte_len(value.as_str()) as u64,
            CellValue::Interval(value) => byte_len(value.as_str()) as u64,
            CellValue::Json(value) => byte_len(value.as_str()) as u64,
            CellValue::Uuid(value) => byte_len(value.as_str()) as u64,
            CellValue::Bytes(value) => value.len() as u64,
        }
    }

    /// The value as diagnostics show it, with its content left out.
    pub fn describe(&self) -> (r: String)
        ensures
            r@ == cell_description(*self),
    {
        match self {
            CellValue::Null => text::owned("Null"),
            CellValue::Bool(_) => text::owned("Bool(<redacted>)"),
            CellValue::Int64(_) => text::owned("Int64(<redacted>)"),
            CellValue::UInt64(_) => text::owned("UInt64(<redacted>)"),
            CellValue::Float64(_) => text::owned("Float64(<redacted>)"),
            CellValue::Decimal(value) => redacted_text("Decimal", byte_len(value.as_str())),
            CellValue::String(value) => redacted_text("String", byte_len(value.as_str())),
            CellValue::Bytes(value) => redacted_text("Bytes", value.len()),
            CellValue::Date(value) => redacted_text("Date", byte_len(value.as_str())),
            CellValue::Timestamp(value) => redacted_text("Timestamp", byte_len(value.as_str())),
            CellValue::TimestampTz(value) => redacted_text("TimestampTz", byte_len(value.as_str())),
            CellValue::Interval(value) => redacted_text("Interval", byte_len(value.as_str())),
            CellValue::Json(value) => redacted_text("Json", byte_len(value.as_str())),
            CellValue::Uuid(value) => redacted_text("Uuid", byte_len(value.as_str())),
        }
    }
}

/// Metadata shared by every row in a result page.
#[derive(Debug)]
pub struct ColumnMetadata {
    /// Result-set column name.
    pub name: String,
    /// Stable adapter-reported database type name.
    pub source_type: String,
    /// Whether the database metadata reports this column as nullable.
    pub nullable: bool,
}

impl Clone for ColumnMetadata {
    fn clone(&self) -> (r: Self)
        ensures
            r == *self,
    {
        ColumnMetadata {
            name: self.name.clone(),
            source_type: self.source_type.clone(),
            nullable: self.nullable,
        }
    }
}

/// Copies result metadata.
pub fn copy_columns(columns: &Vec<ColumnMetadata>) -> (r: Vec<ColumnMetadata>)
    ensures
        r@ == columns@,
{
    let mut r: Vec<ColumnMetadata> = Vec::new();
    let mut i: usize = 0;
    while i < columns.len()
        invariant
            i <= columns@.len(),
            r@ == columns@.take(i as int),
        decreases columns.len() - i,
    {
        r.push(columns[i].clone());
        i += 1;
    }
    r
}

/// One database-neutral row whose values correspond to page metadata.
pub struct Row {
    /// Ordered values matching the page's columns.
    pub values: Vec<CellValue>,
}

/// The sizes of the first `count` values, each with the name of its column.
pub open spec fn named_bytes(
    values: Seq<CellValue>,
    columns: Seq<ColumnMetadata>,
    count: nat,
) -> nat
    decreases count,
{
    if count == 0 {
        0
    } else {
        named_bytes(values, columns, (count - 1) as nat) + cell_bytes(values[count - 1])
            + text::bytes_in(columns[count - 1].name@)
    }
}

/// How many values of a row have a column.
pub open spec fn paired(values: Seq<CellValue>, columns: Seq<ColumnMetadata>) -> nat {
    if values.len() <= columns.len() {
        values.len()
    } else {
        columns.len()
    }
}

/// Approximate normalized size of one row: its values and their column names.
pub open spec fn row_bytes(row: Row, columns: Seq<ColumnMetadata>) -> u64 {
    saturated(named_bytes(row.values@, columns, paired(row.values@, columns)) as int)
}

impl Row {
    /// Approximate normalized size of this row under its column names.
    pub fn normalized_size(&self, columns: &Vec<ColumnMetadata>) -> (bytes: u64)
        ensures
            bytes == row_bytes(*self, columns@),
    {
        let count: usize = if self.values.len() <= columns.len() {
            self.values.len()
        } else {
            columns.len()
        };
        let mut bytes: u64 = 0;
        let mut i: usize = 0;
        while i < count
            invariant
                i <= count,
                count == paired(self.values@, columns@),
                count <= self.values@.len(),
                count <= columns@.len(),
                bytes == saturated(named_bytes(self.values@, columns@, i as nat) as int),
            decreases count - i,
        {
            let one: u64 = self.values[i].normalized_size().saturating_add(
                byte_len(columns[i].name.as_str()) as u64,
            );
            bytes = bytes.saturating_add(one);
            i += 1;
        }
        bytes
    }
}

/// One downstream-admissible bounded row batch.
pub struct RowBatch {
    /// Shared result schema for the batch.
    pub columns: Vec<ColumnMetadata>,
    /// Rows in this batch.
    pub rows: Vec<Row>,
    /// Approximate normalized payload bytes.
    pub normalized_bytes: u64,
}

/// Fully bounded result of one page execution.
pub struct RowPage {
    /// Batches split before downstream admission.
    pub batches: Vec<RowBatch>,
    /// Total rows normalized in this page.
    pub row_count: usize,
    /// Total normalized bytes materialized in this page.
    pub normalized_bytes: u64,
}

impl Default for RowPage {
    fn default() -> (page: Self)
        ensures
            page.batches@.len() == 0,
            page.row_count == 0,
            page.normalized_bytes == 0,
    {
        RowPage { batches: Vec::new(), row_count: 0, normalized_bytes: 0 }
    }
}

/// Explicit row normalization or resource-bound failure.
#[allow(inconsistent_fields)]
#[derive(Debug)]
pub enum RowError {
    /// Result column names are ambiguous after case-insensitive normalization.
    DuplicateColumn {
        /// Ambiguous result name.
        name: String,
    },
    /// A database row did not match the result metadata.
    ColumnCount {
        /// Expected values.
        expected: usize,
        /// Actual values.
        actual: usize,
    },
    /// The driver returned more rows than the client-side hard bound.
    RowLimitExceeded {
        /// Configured limit.
        limit: usize,
    },
    /// One row cannot fit in a normal batch and no explicit override permits it.
    OversizedRow {
        /// Row size.
        bytes: u64,
        /// Configured limit.
        limit: u64,
    },
    /// The page would exceed its receiver-local memory reservation.
    PageByteLimitExceeded {
        /// Prospective page size.
        bytes: u64,
        /// Reserved page limit.
        limit: u64,
    },
    /// A float cannot be represented by OTLP/JSON without losing validity.
    NonFiniteFloat,
    /// JSON source text is malformed.
    InvalidJson,
    /// A vendor type has no approved database-neutral conversion.
    UnsupportedType {
        /// Adapter-reported type.
        source_type: String,
    },
}

/// What an operator is told of each failure.
pub open spec fn row_message(error: RowError) -> Seq<char> {
    match error {
        RowError::DuplicateColumn { name } => "result column '"@ + name@
            + "' is not unique after normalization"@,
        RowError::ColumnCount { expected, actual } => "row has "@ + text::decimal(actual as nat)
            + " values but metadata describes "@ + text::decimal(expected as nat) + " columns"@,
        RowError::RowLimitExceeded { limit } => "query returned more than the hard row limit of "@
            + text::decimal(limit as nat),
        RowError::OversizedRow { bytes, limit } => "one normalized row is "@ + text::decimal(
            bytes as nat,
        ) + " bytes and exceeds the "@ + text::decimal(limit as nat) + "-byte batch limit"@,
        RowError::PageByteLimitExceeded { bytes, limit } => "normalized page would use "@
            + text::decimal(bytes as nat) + " bytes and exceed its "@ + text::decimal(limit as nat)
            + "-byte reservation"@,
        RowError::NonFiniteFloat => "non-finite floating-point values are not supported"@,
        RowError::InvalidJson => "database JSON value is invalid"@,
        RowError::UnsupportedType { source_type } => "database type '"@ + source_type@
            + "' is not supported"@,
    }
}

impl RowError {
    /// What an operator is told of this failure.
    pub fn message(&self) -> (r: String)
        ensures
            r@ == row_message(*self),
    {
        let mut r = String::new();
        match self {
            RowError::DuplicateColumn { name } => {
                append_text(&mut r, "result column '");
                append_text(&mut r, name.as_str());
                append_text(&mut r, "' is not unique after normalization");
            },
            RowError::ColumnCount { expected, actual } => {
                append_text(&mut r, "row has ");
                append_decimal(&mut r, *actual as u64);
                append_text(&mut r, " values but metadata describes ");
                append_decimal(&mut r, *expected as u64);
                append_text(&mut r, " columns");
            },
            RowError::RowLimitExceeded { limit } => {
                append_text(&mut r, "query returned more than the hard row limit of ");
                append_decimal(&mut r, *limit as u64);
            },
            RowError::OversizedRow { bytes, limit } => {
                append_text(&mut r, "one normalized row is ");
                append_decimal(&mut r, *bytes);
                append_text(&mut r, " bytes and exceeds the ");
                append_decimal(&mut r, *limit);
                append_text(&mut r, "-byte batch limit");
            },
            RowError::PageByteLimitExceeded { bytes, limit } => {
                append_text(&mut r, "normalized page would use ");
                append_decimal(&mut r, *bytes);
                append_text(&mut r, " bytes and exceed its ");
                append_decimal(&mut r, *limit);
                append_text(&mut r, "-byte reservation");
            },
            RowError::NonFiniteFloat => {
                append_text(&mut r, "non-finite floating-point values are not supported");
            },
            RowError::InvalidJson => {
                append_text(&mut r, "database JSON value is invalid");
            },
            RowError::UnsupportedType { source_type } => {
                append_text(&mut r, "database type '");
                append_text(&mut r, source_type.as_str());
                append_text(&mut r, "' is not supported");
            },
        }
        assert(r@ =~= row_message(*self));
        r
    }
}

/// Whether the column at `at` has no name or one that an earlier column has.
pub open spec fn ambiguous(columns: Seq<ColumnMetadata>, at: int) -> bool {
    ||| text::normal_name(columns[at].name@).len() == 0
    ||| exists|i: int|
        0 <= i < at && text::normal_name((#[trigger] columns[i]).name@) == text::normal_name(columns[at].name@)
}

/// The first column without a name of its own.
pub open spec fn is_first_ambiguous(columns: Seq<ColumnMetadata>, at: int) -> bool {
    &&& 0 <= at < columns.len()
    &&& ambiguous(columns, at)
    &&& forall|i: int| 0 <= i < at ==> !#[trigger] ambiguous(columns, i)
}

/// Whether every column has a name of its own.
pub open spec fn distinct_columns(columns: Seq<ColumnMetadata>) -> bool {
    forall|i: int| 0 <= i < columns.len() ==> !#[trigger] ambiguous(columns, i)
}

/// Checks that every result column has a name of its own, case aside.
pub fn validate_columns(columns: &Vec<ColumnMetadata>) -> (r: Result<(), RowError>)
    ensures
        r is Ok <==> distinct_columns(columns@),
        r matches Err(error) ==> error matches RowError::DuplicateColumn { name } && exists|at: int|
            #[trigger] is_first_ambiguous(columns@, at) && name@ == columns@[at].name@,
{
    let mut names: Vec<String> = Vec::new();
    let mut i: usize = 0;
    while i < columns.len()
        invariant
            i <= columns@.len(),
            names@.len() == i,
            forall|j: int| 0 <= j < i ==> (#[trigger] names@[j])@ == text::normal_name(columns@[j].name@),
            forall|j: int| 0 <= j < i ==> !#[trigger] ambiguous(columns@, j),
        decreases columns.len() - i,
    {
        let normalized = text::normalized(columns[i].name.as_str());
        let mut repeated = false;
        let mut j: usize = 0;
        while j < i
            invariant
                j <= i < columns@.len(),
                names@.len() == i,
                normalized@ == text::normal_name(columns@[i as int].name@),
                forall|k: int|
                    0 <= k < i ==> (#[trigger] names@[k])@ == text::normal_name(columns@[k].name@),
                repeated <==> exists|k: int|
                    0 <= k < j && text::normal_name((#[trigger] columns@[k]).name@) == normalized@,
            decreases i - j,
        {
            if names[j] == normalized {
                repeated = true;
                assert(text::normal_name(columns@[j as int].name@) == normalized@);
            }
            j += 1;
        }
        if normalized.as_str().is_empty() || repeated {
            assert(ambiguous(columns@, i as int));
            assert(is_first_ambiguous(columns@, i as int));
            return Err(RowError::DuplicateColumn { name: columns[i].name.clone() });
        }
        assert(!ambiguous(columns@, i as int));
        names.push(normalized);
        i += 1;
    }
    Ok(())
}

/// What a batch holds.
pub struct BatchModel {
    pub columns: Seq<ColumnMetadata>,
    pub rows: Seq<Row>,
    pub bytes: u64,
}

impl View for RowBatch {
    type V = BatchModel;

    open spec fn view(&self) -> BatchModel {
        BatchModel { columns: self.columns@, rows: self.rows@, bytes: self.normalized_bytes }
    }
}

/// What a page under construction holds: closed batches and the open one.
pub struct PageModel {
    pub columns: Seq<ColumnMetadata>,
    pub limits: ExecutionLimits,
    pub policy: OversizePolicy,
    pub batches: Seq<BatchModel>,
    pub open: Seq<Row>,
    pub open_bytes: u64,
    pub rows: nat,
    pub bytes: u64,
}

/// The page in which nothing was read yet.
pub open spec fn empty_page(
    columns: Seq<ColumnMetadata>,
    limits: ExecutionLimits,
    policy: OversizePolicy,
) -> PageModel {
    PageModel {
        columns,
        limits,
        policy,
        batches: Seq::empty(),
        open: Seq::empty(),
        open_bytes: 0,
        rows: 0,
        bytes: 0,
    }
}

/// The page after its open batch, if it has rows, is closed.
pub open spec fn closed_page(page: PageModel) -> PageModel {
    if page.open.len() == 0 {
        page
    } else {
        PageModel {
            batches: page.batches.push(
                BatchModel { columns: page.columns, rows: page.open, bytes: page.open_bytes },
            ),
            open: Seq::empty(),
            open_bytes: 0,
            ..page
        }
    }
}

/// Why a row cannot join a page, if it cannot.
pub open spec fn refusal(page: PageModel, row: Row) -> Option<RowError> {
    let size = row_bytes(row, page.columns);
    if row.values@.len() != page.columns.len() {
        Some(
            RowError::ColumnCount {
                expected: page.columns.len() as usize,
                actual: row.values@.len() as usize,
            },
        )
    } else if page.rows >= page.limits.max_rows {
        Some(RowError::RowLimitExceeded { limit: page.limits.max_rows })
    } else if size > page.limits.max_batch_bytes && page.policy is Error {
        Some(RowError::OversizedRow { bytes: size, limit: page.limits.max_batch_bytes })
    } else if saturated(page.bytes + size) > page.limits.max_page_bytes {
        Some(
            RowError::PageByteLimitExceeded {
                bytes: saturated(page.bytes + size),
                limit: page.limits.max_page_bytes,
            },
        )
    } else {
        None
    }
}

/// Whether the open batch has no room for `size` more bytes or one more row.
pub open spec fn open_is_full(page: PageModel, size: u64) -> bool {
    ||| page.open.len() >= page.limits.max_batch_rows
    ||| page.open.len() > 0 && saturated(page.open_bytes + size) > page.limits.max_batch_bytes
}

/// The page after a row joined it: in a new batch when the open one is full, and
/// in a batch of its own when it exceeds the batch limit by itself.
pub open spec fn extended_page(page: PageModel, row: Row) -> PageModel {
    let size = row_bytes(row, page.columns);
    let room = if open_is_full(page, size) {
        closed_page(page)
    } else {
        page
    };
    let joined = PageModel {
        open: room.open.push(row),
        open_bytes: saturated(room.open_bytes + size),
        rows: room.rows + 1,
        bytes: saturated(room.bytes + size),
        ..room
    };
    if size > page.limits.max_batch_bytes {
        closed_page(joined)
    } else {
        joined
    }
}

/// The rows of all batches, in order.
pub open spec fn batched_rows(batches: Seq<BatchModel>) -> Seq<Row>
    decreases batches.len(),
{
    if batches.len() == 0 {
        Seq::empty()
    } else {
        batched_rows(batches.drop_last()) + batches.last().rows
    }
}

/// Every row that joined a page, in the order it came.
pub open spec fn page_rows(page: PageModel) -> Seq<Row> {
    batched_rows(page.batches) + page.open
}

/// The normalized size of a run of rows.
pub open spec fn rows_bytes(rows: Seq<Row>, columns: Seq<ColumnMetadata>) -> nat
    decreases rows.len(),
{
    if rows.len() == 0 {
        0
    } else {
        rows_bytes(rows.drop_last(), columns) + row_bytes(rows.last(), columns) as nat
    }
}

/// Whether a run of rows keeps the batch bounds: one row always may stand alone,
/// more only within both limits.
pub open spec fn batch_bounded(
    rows: Seq<Row>,
    columns: Seq<ColumnMetadata>,
    limits: ExecutionLimits,
    policy: OversizePolicy,
) -> bool {
    &&& rows.len() > 0
    &&& rows.len() > 1 ==> rows.len() <= limits.max_batch_rows
    &&& rows.len() > 1 || policy is Error ==> saturated(rows_bytes(rows, columns) as int)
        <= limits.max_batch_bytes
}

/// Whether a closed batch carries the page's schema, its true size, and keeps the bounds.
pub open spec fn batch_valid(page: PageModel, batch: BatchModel) -> bool {
    &&& batch.columns == page.columns
    &&& batch.bytes == saturated(rows_bytes(batch.rows, page.columns) as int)
    &&& batch_bounded(batch.rows, page.columns, page.limits, page.policy)
}

/// The invariant of a page under construction.
pub open spec fn page_valid(page: PageModel) -> bool {
    &&& forall|i: int| 0 <= i < page.batches.len() ==> batch_valid(page, #[trigger] page.batches[i])
    &&& page.open_bytes == saturated(rows_bytes(page.open, page.columns) as int)
    &&& page.open.len() > 0 ==> batch_bounded(page.open, page.columns, page.limits, page.policy)
    &&& page.rows == page_rows(page).len()
    &&& page.rows <= page.limits.max_rows
    &&& page.bytes == saturated(rows_bytes(page_rows(page), page.columns) as int)
    &&& page.bytes <= page.limits.max_page_bytes
}

/// Incrementally validates and splits a driver result into bounded batches.
pub struct RowPageBuilder {
    columns: Vec<ColumnMetadata>,
    limits: ExecutionLimits,
    oversize_policy: OversizePolicy,
    batches: Vec<RowBatch>,
    current_rows: Vec<Row>,
    current_bytes: u64,
    total_rows: usize,
    total_bytes: u64,
}

impl View for RowPageBuilder {
    type V = PageModel;

    closed spec fn view(&self) -> PageModel {
        PageModel {
            columns: self.columns@,
            limits: self.limits,
            policy: self.oversize_policy,
            batches: self.batches@.map_values(|batch: RowBatch| batch@),
            open: self.current_rows@,
            open_bytes: self.current_bytes,
            rows: self.total_rows as nat,
            bytes: self.total_bytes,
        }
    }
}

impl RowPageBuilder {
    /// Creates a page builder after validating stable result metadata.
    pub fn new(
        columns: Vec<ColumnMetadata>,
        limits: ExecutionLimits,
        oversize_policy: OversizePolicy,
    ) -> (r: Result<Self, RowError>)
        ensures
            r is Ok <==> distinct_columns(columns@),
            r matches Ok(builder) ==> builder@ == empty_page(columns@, limits, oversize_policy)
                && page_valid(builder@),
            r matches Err(error) ==> error matches RowError::DuplicateColumn { name } && exists|
                at: int,
            | #[trigger]
                is_first_ambiguous(columns@, at) && name@ == columns@[at].name@,
    {
        match validate_columns(&columns) {
            Err(error) => Err(error),
            Ok(()) => {
                let builder = RowPageBuilder {
                    columns,
                    limits,
                    oversize_policy,
                    batches: Vec::new(),
                    current_rows: Vec::new(),
                    current_bytes: 0,
                    total_rows: 0,
                    total_bytes: 0,
                };
                assert(builder@.batches =~= Seq::empty());
                assert(builder@.open =~= Seq::empty());
                assert(page_rows(builder@) =~= Seq::empty());
                Ok(builder)
            },
        }
    }

    /// Adds one row while enforcing row, batch-byte, and page-byte bounds.
    pub fn push(&mut self, row: Row) -> (r: Result<(), RowError>)
        requires
            page_valid(old(self)@),
        ensures
            page_valid(final(self)@),
            match r {
                Ok(()) => refusal(old(self)@, row) is None && final(self)@ == extended_page(
                    old(self)@,
                    row,
                ),
                Err(error) => refusal(old(self)@, row) == Some(error) && final(self)@ == old(
                    self,
                )@,
            },
    {
        let ghost before = self@;
        if row.values.len() != self.columns.len() {
            return Err(
                RowError::ColumnCount { expected: self.columns.len(), actual: row.values.len() },
            );
        }
        if self.total_rows >= self.limits.max_rows {
            return Err(RowError::RowLimitExceeded { limit: self.limits.max_rows });
        }
        let size: u64 = row.normalized_size(&self.columns);
        if size > self.limits.max_batch_bytes && self.oversize_policy == OversizePolicy::Error {
            return Err(
                RowError::OversizedRow { bytes: size, limit: self.limits.max_batch_bytes },
            );
        }
        if self.total_bytes.saturating_add(size) > self.limits.max_page_bytes {
            return Err(
                RowError::PageByteLimitExceeded {
                    bytes: self.total_bytes.saturating_add(size),
                    limit: self.limits.max_page_bytes,
                },
            );
        }
        proof {
            law_push_keeps_the_page_valid(before, row);
        }
        let row_limit_reached = self.current_rows.len() >= self.limits.max_batch_rows;
        let byte_limit_reached = self.current_rows.len() > 0 && self.current_bytes.saturating_add(
            size,
        ) > self.limits.max_batch_bytes;
        if row_limit_reached || byte_limit_reached {
            self.flush_batch();
        }
        self.current_rows.push(row);
        self.current_bytes = self.current_bytes.saturating_add(size);
        self.total_rows += 1;
        self.total_bytes = self.total_bytes.saturating_add(size);
        if size > self.limits.max_batch_bytes {
            self.flush_batch();
        }
        assert(self@ == extended_page(before, row));
        Ok(())
    }

    /// Completes the bounded page.
    pub fn finish(self) -> (page: RowPage)
        requires
            page_valid(self@),
        ensures
            page.batches@.map_values(|batch: RowBatch| batch@) == closed_page(self@).batches,
            page.row_count == self@.rows,
            page.normalized_bytes == self@.bytes,
    {
        let mut builder = self;
        builder.flush_batch();
        RowPage {
            batches: builder.batches,
            row_count: builder.total_rows,
            normalized_bytes: builder.total_bytes,
        }
    }

    fn flush_batch(&mut self)
        ensures
            final(self)@ == closed_page(old(self)@),
    {
        let ghost before = self@;
        if self.current_rows.len() == 0 {
            return;
        }
        let mut rows: Vec<Row> = Vec::new();
        core::mem::swap(&mut rows, &mut self.current_rows);
        let bytes: u64 = self.current_bytes;
        self.current_bytes = 0;
        let columns = copy_columns(&self.columns);
        self.batches.push(RowBatch { columns, rows, normalized_bytes: bytes });
        assert(self@.batches =~= closed_page(before).batches);
        assert(self@.open =~= Seq::empty());
    }
}

/// Closing the open batch neither drops, repeats nor reorders a row.
pub proof fn law_closing_keeps_rows(page: PageModel)
    ensures
        page_rows(closed_page(page)) == page_rows(page),
{
    if page.open.len() > 0 {
        let closed = closed_page(page);
        assert(closed.batches.drop_last() =~= page.batches);
        assert(page_rows(closed) =~= page_rows(page));
    }
}

/// A row that joins a page comes after all that came before it, which stay.
pub proof fn law_push_appends_the_row(page: PageModel, row: Row)
    ensures
        page_rows(extended_page(page, row)) == page_rows(page).push(row),
{
    let size = row_bytes(row, page.columns);
    law_closing_keeps_rows(page);
    let room = if open_is_full(page, size) {
        closed_page(page)
    } else {
        page
    };
    let joined = PageModel {
        open: room.open.push(row),
        open_bytes: saturated(room.open_bytes + size),
        rows: room.rows + 1,
        bytes: saturated(room.bytes + size),
        ..room
    };
    law_closing_keeps_rows(joined);
    assert(page_rows(joined) =~= page_rows(page).push(row));
}

proof fn lemma_rows_bytes_push(rows: Seq<Row>, row: Row, columns: Seq<ColumnMetadata>)
    ensures
        rows_bytes(rows.push(row), columns) == rows_bytes(rows, columns) + row_bytes(row, columns),
{
    assert(rows.push(row).drop_last() =~= rows);
}

/// A row that is not refused leaves the page within all of its bounds.
pub proof fn law_push_keeps_the_page_valid(page: PageModel, row: Row)
    requires
        page_valid(page),
        refusal(page, row) is None,
    ensures
        page_valid(extended_page(page, row)),
{
    let size = row_bytes(row, page.columns);
    law_push_appends_the_row(page, row);
    lemma_rows_bytes_push(page_rows(page), row, page.columns);
    lemma_rows_bytes_push(page.open, row, page.columns);
    lemma_rows_bytes_push(Seq::empty(), row, page.columns);
    let room = if open_is_full(page, size) {
        closed_page(page)
    } else {
        page
    };
    assert(room.open == page.open || room.open == Seq::<Row>::empty());
    let joined = PageModel {
        open: room.open.push(row),
        open_bytes: saturated(room.open_bytes + size),
        rows: room.rows + 1,
        bytes: saturated(room.bytes + size),
        ..room
    };
    assert(rows_bytes(Seq::<Row>::empty(), page.columns) == 0);
    assert(forall|i: int|
        0 <= i < room.batches.len() ==> batch_valid(room, #[trigger] room.batches[i]));
    assert(batch_bounded(joined.open, page.columns, page.limits, page.policy));
    let after = extended_page(page, row);
    assert forall|i: int| 0 <= i < after.batches.len() implies batch_valid(
        after,
        #[trigger] after.batches[i],
    ) by {
        if i < room.batches.len() {
            assert(after.batches[i] == room.batches[i]);
        }
    }
}

/// A finished page keeps every bound: batches within their limits, the page within
/// its own, and all rows in order.
pub proof fn law_finished_page_is_bounded(page: PageModel)
    requires
        page_valid(page),
    ensures
        batched_rows(closed_page(page).batches) == page_rows(page),
        forall|i: int|
            0 <= i < closed_page(page).batches.len() ==> batch_valid(
                page,
                #[trigger] closed_page(page).batches[i],
            ),
{
    law_closing_keeps_rows(page);
    let closed = closed_page(page);
    assert(page_rows(closed) =~= batched_rows(closed.batches));
    assert forall|i: int| 0 <= i < closed.batches.len() implies batch_valid(
        page,
        #[trigger] closed.batches[i],
    ) by {
        if i < page.batches.len() {
            assert(closed.batches[i] == page.batches[i]);
        }
    }
}

/// The size of a value is that of what it holds: the UTF-8 bytes of a text, the bytes
/// themselves, eight for a number of 64 bits, and one for a boolean or a NULL.
pub proof fn law_sizes_count_what_is_held(cell: Cell)
    ensures
        match cell {
            Cell::Null => cell_size(cell) == 1,
            Cell::Bool(_) => cell_size(cell) == 1,
            Cell::Int64(_) => cell_size(cell) * 8 == 64,
            Cell::UInt64(_) => cell_size(cell) * 8 == 64,
            Cell::Float64(_) => cell_size(cell) * 8 == 64,
            Cell::Bytes(held) => cell_size(cell) == held.len(),
            Cell::Decimal(held) => cell_size(cell) == vstd::utf8::encode_utf8(held).len(),
            Cell::Text(held) => cell_size(cell) == vstd::utf8::encode_utf8(held).len(),
            Cell::Date(held) => cell_size(cell) == vstd::utf8::encode_utf8(held).len(),
            Cell::Timestamp(held) => cell_size(cell) == vstd::utf8::encode_utf8(held).len(),
            Cell::TimestampTz(held) => cell_size(cell) == vstd::utf8::encode_utf8(held).len(),
            Cell::Interval(held) => cell_size(cell) == vstd::utf8::encode_utf8(held).len(),
            Cell::Json(held) => cell_size(cell) == vstd::utf8::encode_utf8(held).len(),
            Cell::Uuid(held) => cell_size(cell) == vstd::utf8::encode_utf8(held).len(),
        },
{
}

/// A row's size is the sum over its columns of the value's size and the name's bytes: one
/// column more adds exactly its own.
pub proof fn law_row_size_adds_up(row: Row, longer: Row, columns: Seq<ColumnMetadata>)
    requires
        longer.values@.len() == columns.len(),
        columns.len() > 0,
        row.values@ == longer.values@.drop_last(),
        row_bytes(longer, columns) < u64::MAX,
    ensures
        row_bytes(longer, columns) == row_bytes(row, columns.drop_last()) + cell_size(
            longer.values@.last()@,
        ) + vstd::utf8::encode_utf8(columns.last().name@).len(),
{
    let less = (columns.len() - 1) as nat;
    lemma_named_bytes_prefix(
        longer.values@,
        columns,
        row.values@,
        columns.drop_last(),
        less,
    );
}

proof fn lemma_named_bytes_prefix(
    values: Seq<CellValue>,
    columns: Seq<ColumnMetadata>,
    others: Seq<CellValue>,
    names: Seq<ColumnMetadata>,
    count: nat,
)
    requires
        count <= others.len(),
        count <= names.len(),
        count <= values.len(),
        count <= columns.len(),
        forall|i: int| 0 <= i < count ==> values[i] == others[i],
        forall|i: int| 0 <= i < count ==> columns[i] == names[i],
    ensures
        named_bytes(values, columns, count) == named_bytes(others, names, count),
    decreases count,
{
    if count > 0 {
        lemma_named_bytes_prefix(values, columns, others, names, (count - 1) as nat);
    }
}

/// An empty row has no size.
pub proof fn law_empty_rows_have_no_size(row: Row, columns: Seq<ColumnMetadata>)
    requires
        row.values@.len() == 0 || columns.len() == 0,
    ensures
        row_bytes(row, columns) == 0,
{
}

/// A row joins a page exactly when it has a value for every column, a row is still allowed, it
/// fits a batch or may stand alone, and the page's bytes do not go beyond their limit. The
/// first of these that fails is what is reported.
pub proof fn law_rows_are_refused_for_a_reason(page: PageModel, row: Row)
    requires
        page.columns.len() <= usize::MAX,
        row.values@.len() <= usize::MAX,
        page.limits.max_page_bytes < u64::MAX,
    ensures
        refusal(page, row) is None <==> row.values@.len() == page.columns.len() && page.rows
            < page.limits.max_rows && (row_bytes(row, page.columns) <= page.limits.max_batch_bytes
            || page.policy == OversizePolicy::AllowSingleRow) && page.bytes + row_bytes(
            row,
            page.columns,
        ) <= page.limits.max_page_bytes,
        match refusal(page, row) {
            Some(RowError::ColumnCount { expected, actual }) => expected == page.columns.len()
                && actual == row.values@.len() && expected != actual,
            Some(RowError::RowLimitExceeded { limit }) => row.values@.len() == page.columns.len()
                && limit == page.limits.max_rows && page.rows >= limit,
            Some(RowError::OversizedRow { bytes, limit }) => page.rows < page.limits.max_rows
                && bytes == row_bytes(row, page.columns) && limit == page.limits.max_batch_bytes
                && bytes > limit && page.policy == OversizePolicy::Error,
            Some(RowError::PageByteLimitExceeded { bytes, limit }) => limit
                == page.limits.max_page_bytes && page.bytes + row_bytes(row, page.columns) > limit
                && (bytes == page.bytes + row_bytes(row, page.columns) || bytes == u64::MAX),
            Some(_) => false,
            None => true,
        },
{
}

/// A row joins the open batch as long as that has room for one more row and for its bytes,
/// and opens the next one otherwise; a row too large for any batch has one of its own.
pub proof fn law_batches_are_filled_before_the_next(page: PageModel, row: Row)
    requires
        page.open_bytes + row_bytes(row, page.columns) <= u64::MAX,
    ensures
        ({
            let size = row_bytes(row, page.columns);
            let after = extended_page(page, row);
            let fits = page.open.len() < page.limits.max_batch_rows && (page.open.len() == 0
                || page.open_bytes + size <= page.limits.max_batch_bytes);
            let held = if page.open.len() > 0 {
                page.batches + seq![
                    BatchModel { columns: page.columns, rows: page.open, bytes: page.open_bytes },
                ]
            } else {
                page.batches
            };
            &&& after.columns == page.columns && after.limits == page.limits && after.policy
                == page.policy
            &&& after.rows == page.rows + 1
            &&& size <= page.limits.max_batch_bytes && fits ==> after.batches == page.batches
                && after.open == page.open + seq![row] && after.open_bytes == page.open_bytes + size
            &&& size <= page.limits.max_batch_bytes && !fits && page.open.len() > 0 ==> after.batches
                == held && after.open == seq![row] && after.open_bytes == size
            &&& size > page.limits.max_batch_bytes && page.open.len() > 0 ==> after.batches == held
                + seq![BatchModel { columns: page.columns, rows: seq![row], bytes: size }]
                && after.open.len() == 0
        }),
{
    let size = row_bytes(row, page.columns);
    let after = extended_page(page, row);
    assert(page.open.push(row) =~= page.open + seq![row]);
    assert(Seq::<Row>::empty().push(row) =~= seq![row]);
    let batch = BatchModel { columns: page.columns, rows: page.open, bytes: page.open_bytes };
    let alone = BatchModel { columns: page.columns, rows: seq![row], bytes: size };
    assert(page.batches.push(batch) =~= page.batches + seq![batch]);
    assert(page.batches.push(batch).push(alone) =~= (page.batches + seq![batch]) + seq![alone]);
}

/// Columns have names of their own exactly when none is blank and no two are spelt alike once
/// white space around them is taken away.
pub proof fn law_distinct_columns_are_told_apart(columns: Seq<ColumnMetadata>)
    ensures
        distinct_columns(columns) <==> (forall|i: int|
            0 <= i < columns.len() ==> !text::is_blank((#[trigger] columns[i]).name@)) && (forall|
            i: int,
            j: int,
        |
            0 <= i < j < columns.len() ==> !text::spells_alike(
                text::trim((#[trigger] columns[i]).name@),
                text::trim((#[trigger] columns[j]).name@),
            )),
{
    assert forall|i: int| 0 <= i < columns.len() implies (text::normal_name(
        (#[trigger] columns[i]).name@,
    ).len() == 0) == text::is_blank(columns[i].name@) by {
        text::law_names_are_judged_without_case_and_space(columns[i].name@, columns[i].name@);
    }
    assert forall|i: int, j: int| 0 <= i < j < columns.len() implies (text::normal_name(
        (#[trigger] columns[i]).name@,
    ) == text::normal_name((#[trigger] columns[j]).name@)) == text::spells_alike(
        text::trim(columns[i].name@),
        text::trim(columns[j].name@),
    ) by {
        text::law_names_are_judged_without_case_and_space(columns[i].name@, columns[j].name@);
    }
    if distinct_columns(columns) {
        assert forall|i: int| 0 <= i < columns.len() implies !text::is_blank(
            (#[trigger] columns[i]).name@,
        ) by {
            assert(!ambiguous(columns, i));
        }
        assert forall|i: int, j: int| 0 <= i < j < columns.len() implies !text::spells_alike(
            text::trim((#[trigger] columns[i]).name@),
            text::trim((#[trigger] columns[j]).name@),
        ) by {
            assert(!ambiguous(columns, j));
        }
    }
}

} // verus!
