//! Oracle result types: which are supported, which can be cursors, and how large their
//! values get.

use crate::database::row;
use crate::database::row::{CellValue, ColumnMetadata, Row};
use crate::oracle::error::OracleAdapterError;
use crate::polling::{CompiledQuery, CompositeWatermark};
use crate::text;
use crate::text::{same, same_but_case};
use vstd::prelude::*;

verus! {

/// A result type, as far as normalization depends on it.
#[derive(Clone, Copy, Debug, PartialEq, Eq, Structural)]
pub enum OracleType {
    /// `VARCHAR2`, by its bytes.
    Varchar2(u32),
    /// `NVARCHAR2`, by its characters.
    NVarchar2(u32),
    /// `CHAR`, by its bytes.
    Char(u32),
    /// `NCHAR`, by its characters.
    NChar(u32),
    /// `ROWID`.
    Rowid,
    /// `RAW`, by its bytes.
    Raw(u32),
    /// `BINARY_FLOAT`.
    BinaryFloat,
    /// `BINARY_DOUBLE`.
    BinaryDouble,
    /// `NUMBER`, by its precision and scale.
    Number(u8, i8),
    /// `FLOAT`, by its precision.
    Float(u8),
    /// `DATE`.
    Date,
    /// `TIMESTAMP`, by its fractional digits.
    Timestamp(u8),
    /// `TIMESTAMP WITH TIME ZONE`, by its fractional digits.
    TimestampTZ(u8),
    /// `TIMESTAMP WITH LOCAL TIME ZONE`, by its fractional digits.
    TimestampLTZ(u8),
    /// `INTERVAL DAY TO SECOND`, by its leading and fractional digits.
    IntervalDS(u8, u8),
    /// `INTERVAL YEAR TO MONTH`, by its leading digits.
    IntervalYM(u8),
    /// A 64-bit integer.
    Int64,
    /// An unsigned 64-bit integer.
    UInt64,
    /// `BOOLEAN`.
    Boolean,
    /// A type without a precision-preserving normal form.
    Unsupported,
}

/// A result column as the client library describes it.
pub struct OracleColumn {
    /// Its name.
    pub name: String,
    /// Its type.
    pub oracle_type: OracleType,
    /// Its type's name.
    pub source_type: String,
    /// Whether it may be NULL.
    pub nullable: bool,
}

/// The type with which a cursor's timestamp is bound: with a time zone, so that
/// offsets survive, and with all fractional digits.
pub fn cursor_bind_type() -> (r: OracleType)
    ensures
        r == OracleType::TimestampTZ(9),
{
    OracleType::TimestampTZ(9)
}

/// Why the first unsupported result column is refused, if there is one.
pub open spec fn first_unsupported(columns: Seq<OracleColumn>) -> Option<String>
    decreases columns.len(),
{
    if columns.len() == 0 {
        None
    } else {
        match first_unsupported(columns.drop_last()) {
            Some(name) => Some(name),
            None => if columns.last().oracle_type is Unsupported {
                Some(columns.last().source_type)
            } else {
                None
            },
        }
    }
}

proof fn lemma_first_unsupported(columns: Seq<OracleColumn>, count: nat)
    requires
        count <= columns.len(),
        first_unsupported(columns.take(count as int)) is Some,
    ensures
        first_unsupported(columns) == first_unsupported(columns.take(count as int)),
    decreases columns.len(),
{
    if count == columns.len() {
        assert(columns.take(count as int) =~= columns);
    } else {
        assert(columns.drop_last().take(count as int) =~= columns.take(count as int));
        lemma_first_unsupported(columns.drop_last(), count);
    }
}

/// Rejects result types that lack a precision-preserving normalization path.
pub fn validate_types(columns: &Vec<OracleColumn>) -> (r: Result<(), OracleAdapterError>)
    ensures
        r == match first_unsupported(columns@) {
            Some(name) => Err::<(), OracleAdapterError>(OracleAdapterError::UnsupportedType(name)),
            None => Ok(()),
        },
{
    let mut i: usize = 0;
    while i < columns.len()
        invariant
            i <= columns@.len(),
            first_unsupported(columns@.take(i as int)) is None,
        decreases columns.len() - i,
    {
        let ghost next = columns@.take(i + 1);
        assert(next.drop_last() =~= columns@.take(i as int));
        assert(next.last() == columns@[i as int]);
        match columns[i].oracle_type {
            OracleType::Unsupported => {
                proof {
                    lemma_first_unsupported(columns@, (i + 1) as nat);
                }
                return Err(OracleAdapterError::UnsupportedType(columns[i].source_type.clone()));
            },
            _ => {},
        }
        i += 1;
    }
    assert(columns@.take(columns@.len() as int) =~= columns@);
    Ok(())
}

/// The vendor-neutral metadata of a column.
pub open spec fn is_described(metadata: ColumnMetadata, column: OracleColumn) -> bool {
    &&& metadata.name == column.name
    &&& metadata.source_type == column.source_type
    &&& metadata.nullable == column.nullable
}

/// The vendor-neutral metadata of columns.
pub open spec fn are_described(metadata: Seq<ColumnMetadata>, columns: Seq<OracleColumn>) -> bool {
    metadata.len() == columns.len() && forall|i: int|
        0 <= i < columns.len() ==> is_described(#[trigger] metadata[i], columns[i])
}

/// The types of columns.
pub open spec fn types_of(columns: Seq<OracleColumn>) -> Seq<OracleType> {
    columns.map_values(|column: OracleColumn| column.oracle_type)
}

/// Describes a column without its vendor.
pub fn column_metadata(column: &OracleColumn) -> (r: ColumnMetadata)
    ensures
        is_described(r, *column),
{
    ColumnMetadata {
        name: column.name.clone(),
        source_type: column.source_type.clone(),
        nullable: column.nullable,
    }
}

/// Compiles public metadata and the decode types of a result.
pub fn result_metadata(columns: &Vec<OracleColumn>) -> (r: Result<
    (Vec<ColumnMetadata>, Vec<OracleType>),
    OracleAdapterError,
>)
    ensures
        match r {
            Ok((metadata, types)) => first_unsupported(columns@) is None && are_described(
                metadata@,
                columns@,
            ) && types@ == types_of(columns@),
            Err(error) => first_unsupported(columns@) matches Some(name) && error
                == OracleAdapterError::UnsupportedType(name),
        },
{
    match validate_types(columns) {
        Err(error) => {
            return Err(error);
        },
        Ok(()) => {},
    }
    let mut metadata: Vec<ColumnMetadata> = Vec::new();
    let mut types: Vec<OracleType> = Vec::new();
    let mut i: usize = 0;
    while i < columns.len()
        invariant
            i <= columns@.len(),
            metadata@.len() == i,
            types@.len() == i,
            forall|j: int| 0 <= j < i ==> is_described(#[trigger] metadata@[j], columns@[j]),
            forall|j: int| 0 <= j < i ==> #[trigger] types@[j] == columns@[j].oracle_type,
        decreases columns.len() - i,
    {
        metadata.push(column_metadata(&columns[i]));
        types.push(columns[i].oracle_type);
        i += 1;
    }
    assert(types@ =~= types_of(columns@));
    Ok((metadata, types))
}

/// Whether a result still has the columns that a decode plan was made for.
pub open spec fn still_matches(
    columns: Seq<OracleColumn>,
    metadata: Seq<ColumnMetadata>,
    types: Seq<OracleType>,
) -> bool {
    columns.len() == metadata.len() && forall|i: int|
        0 <= i < columns.len() ==> (#[trigger] columns[i]).name@ == metadata[i].name@
            && columns[i].oracle_type == types[i]
}

/// Detects result-shape changes before a cached decode plan is applied.
pub fn metadata_matches(
    columns: &Vec<OracleColumn>,
    metadata: &Vec<ColumnMetadata>,
    types: &Vec<OracleType>,
) -> (found: bool)
    requires
        metadata@.len() == types@.len(),
    ensures
        found == still_matches(columns@, metadata@, types@),
{
    if columns.len() != metadata.len() {
        return false;
    }
    let mut i: usize = 0;
    while i < columns.len()
        invariant
            i <= columns@.len(),
            columns@.len() == metadata@.len(),
            metadata@.len() == types@.len(),
            forall|j: int|
                0 <= j < i ==> (#[trigger] columns@[j]).name@ == metadata@[j].name@
                    && columns@[j].oracle_type == types@[j],
        decreases columns.len() - i,
    {
        if !same(columns[i].name.as_str(), metadata[i].name.as_str()) || columns[i].oracle_type
            != types[i] {
            return false;
        }
        i += 1;
    }
    true
}

/// The place of the first column of a name, in any case.
pub open spec fn column_at(columns: Seq<OracleColumn>, name: Seq<char>) -> Option<int>
    decreases columns.len(),
{
    if columns.len() == 0 {
        None
    } else {
        match column_at(columns.drop_last(), name) {
            Some(index) => Some(index),
            None => if text::same_ignoring_case(columns.last().name@, name) {
                Some(columns.len() - 1)
            } else {
                None
            },
        }
    }
}

proof fn lemma_column_at(columns: Seq<OracleColumn>, name: Seq<char>, count: nat)
    requires
        count <= columns.len(),
        column_at(columns.take(count as int), name) is Some,
    ensures
        column_at(columns, name) == column_at(columns.take(count as int), name),
    decreases columns.len(),
{
    if count == columns.len() {
        assert(columns.take(count as int) =~= columns);
    } else {
        assert(columns.drop_last().take(count as int) =~= columns.take(count as int));
        lemma_column_at(columns.drop_last(), name, count);
    }
}

/// Resolves a cursor column by Oracle's case-insensitive identifier rules.
pub fn cursor_column_index(columns: &Vec<OracleColumn>, name: &String) -> (r: Result<
    usize,
    OracleAdapterError,
>)
    ensures
        match r {
            Ok(index) => index < columns@.len() && column_at(columns@, name@) == Some(index as int),
            Err(error) => column_at(columns@, name@) is None && error
                == OracleAdapterError::MissingCursorColumn(*name),
        },
{
    let mut i: usize = 0;
    while i < columns.len()
        invariant
            i <= columns@.len(),
            column_at(columns@.take(i as int), name@) is None,
        decreases columns.len() - i,
    {
        let ghost next = columns@.take(i + 1);
        assert(next.drop_last() =~= columns@.take(i as int));
        assert(next.last() == columns@[i as int]);
        if same_but_case(columns[i].name.as_str(), name.as_str()) {
            proof {
                lemma_column_at(columns@, name@, (i + 1) as nat);
            }
            return Ok(i);
        }
        i += 1;
    }
    assert(columns@.take(columns@.len() as int) =~= columns@);
    Err(OracleAdapterError::MissingCursorColumn(name.clone()))
}

/// Whether a type can be a cursor's timestamp: of the `DATE` and `TIMESTAMP` family.
pub open spec fn is_temporal(oracle_type: OracleType) -> bool {
    oracle_type is Date || oracle_type is Timestamp || oracle_type is TimestampTZ
        || oracle_type is TimestampLTZ
}

/// Whether a type can be a cursor's tie-breaker: an integer that always fits 64 bits.
pub open spec fn is_integral(oracle_type: OracleType) -> bool {
    match oracle_type {
        OracleType::Int64 => true,
        OracleType::Number(precision, scale) => 1 <= precision <= 18 && scale == 0,
        _ => false,
    }
}

/// Why a result has no usable cursor columns, if it has none.
pub open spec fn cursor_failure(columns: Seq<OracleColumn>, watermark: CompositeWatermark) -> Option<
    OracleAdapterError,
> {
    match column_at(columns, watermark.timestamp_column@) {
        None => Some(OracleAdapterError::MissingCursorColumn(watermark.timestamp_column)),
        Some(timestamp) => match column_at(columns, watermark.tie_breaker_column@) {
            None => Some(OracleAdapterError::MissingCursorColumn(watermark.tie_breaker_column)),
            Some(tie_breaker) => if !is_temporal(columns[timestamp].oracle_type) {
                Some(
                    OracleAdapterError::UnsupportedCursorTimestamp {
                        column: watermark.timestamp_column,
                        data_type: columns[timestamp].source_type,
                    },
                )
            } else if !is_integral(columns[tie_breaker].oracle_type) {
                Some(
                    OracleAdapterError::UnsupportedCursorTieBreaker {
                        column: watermark.tie_breaker_column,
                        data_type: columns[tie_breaker].source_type,
                    },
                )
            } else {
                None
            },
        },
    }
}

/// Finds both cursor columns and checks that their types are deterministic.
pub fn validate_described_cursor_columns(
    columns: &Vec<OracleColumn>,
    watermark: &CompositeWatermark,
) -> (r: Result<(usize, usize), OracleAdapterError>)
    ensures
        match r {
            Ok((timestamp, tie_breaker)) => {
                &&& cursor_failure(columns@, *watermark) is None
                &&& timestamp < columns@.len()
                &&& tie_breaker < columns@.len()
                &&& column_at(columns@, watermark.timestamp_column@) == Some(timestamp as int)
                &&& column_at(columns@, watermark.tie_breaker_column@) == Some(tie_breaker as int)
            },
            Err(error) => cursor_failure(columns@, *watermark) == Some(error),
        },
{
    let timestamp: usize = match cursor_column_index(columns, &watermark.timestamp_column) {
        Ok(index) => index,
        Err(error) => {
            return Err(error);
        },
    };
    let tie_breaker: usize = match cursor_column_index(columns, &watermark.tie_breaker_column) {
        Ok(index) => index,
        Err(error) => {
            return Err(error);
        },
    };
    match columns[timestamp].oracle_type {
        OracleType::Date => {},
        OracleType::Timestamp(_) => {},
        OracleType::TimestampTZ(_) => {},
        OracleType::TimestampLTZ(_) => {},
        _ => {
            return Err(
                OracleAdapterError::UnsupportedCursorTimestamp {
                    column: watermark.timestamp_column.clone(),
                    data_type: columns[timestamp].source_type.clone(),
                },
            );
        },
    }
    let integral: bool = match columns[tie_breaker].oracle_type {
        OracleType::Int64 => true,
        OracleType::Number(precision, scale) => 1 <= precision && precision <= 18 && scale == 0,
        _ => false,
    };
    if !integral {
        return Err(
            OracleAdapterError::UnsupportedCursorTieBreaker {
                column: watermark.tie_breaker_column.clone(),
                data_type: columns[tie_breaker].source_type.clone(),
            },
        );
    }
    Ok((timestamp, tie_breaker))
}

/// Finds both cursor columns and checks that their types are deterministic and that neither
/// may be NULL.
pub fn validate_cursor_columns(columns: &Vec<OracleColumn>, watermark: &CompositeWatermark) -> (r:
    Result<(usize, usize), OracleAdapterError>)
    ensures
        match r {
            Ok((timestamp, tie_breaker)) => {
                &&& cursor_failure(columns@, *watermark) is None
                &&& timestamp < columns@.len()
                &&& tie_breaker < columns@.len()
                &&& column_at(columns@, watermark.timestamp_column@) == Some(timestamp as int)
                &&& column_at(columns@, watermark.tie_breaker_column@) == Some(tie_breaker as int)
                &&& !columns@[timestamp as int].nullable
                &&& !columns@[tie_breaker as int].nullable
            },
            Err(error) => match cursor_failure(columns@, *watermark) {
                Some(failure) => error == failure,
                None => error == OracleAdapterError::NullableCursorColumn && (
                columns@[column_at(columns@, watermark.timestamp_column@)->0].nullable
                    || columns@[column_at(
                    columns@,
                    watermark.tie_breaker_column@,
                )->0].nullable),
            },
        },
{
    match validate_described_cursor_columns(columns, watermark) {
        Err(error) => Err(error),
        Ok((timestamp, tie_breaker)) => {
            if columns[timestamp].nullable || columns[tie_breaker].nullable {
                return Err(OracleAdapterError::NullableCursorColumn);
            }
            Ok((timestamp, tie_breaker))
        },
    }
}

/// The most bytes that the payload of a value takes.
pub open spec fn value_bytes(oracle_type: OracleType) -> nat {
    match oracle_type {
        OracleType::Varchar2(bytes) => bytes as nat,
        OracleType::Char(bytes) => bytes as nat,
        OracleType::Raw(bytes) => bytes as nat,
        OracleType::NVarchar2(characters) => characters as nat * 4,
        OracleType::NChar(characters) => characters as nat * 4,
        OracleType::Rowid => 128,
        OracleType::Number(_, _) => 128,
        OracleType::Float(_) => 128,
        OracleType::Date => 128,
        OracleType::Timestamp(_) => 128,
        OracleType::TimestampTZ(_) => 128,
        OracleType::TimestampLTZ(_) => 128,
        OracleType::IntervalDS(_, _) => 128,
        OracleType::IntervalYM(_) => 128,
        OracleType::BinaryFloat => 8,
        OracleType::BinaryDouble => 8,
        OracleType::Int64 => 8,
        OracleType::UInt64 => 8,
        OracleType::Boolean => 1,
        OracleType::Unsupported => 0,
    }
}

/// Gives a conservative maximum payload of one value.
pub fn max_normalized_value_bytes(oracle_type: &OracleType) -> (n: u64)
    ensures
        n == value_bytes(*oracle_type),
{
    match oracle_type {
        OracleType::Varchar2(bytes) => *bytes as u64,
        OracleType::Char(bytes) => *bytes as u64,
        OracleType::Raw(bytes) => *bytes as u64,
        OracleType::NVarchar2(characters) => *characters as u64 * 4,
        OracleType::NChar(characters) => *characters as u64 * 4,
        OracleType::BinaryFloat => 8,
        OracleType::BinaryDouble => 8,
        OracleType::Int64 => 8,
        OracleType::UInt64 => 8,
        OracleType::Boolean => 1,
        OracleType::Unsupported => 0,
        _ => 128,
    }
}

/// The most bytes that the payloads of a row take.
pub open spec fn payload_bytes(types: Seq<OracleType>) -> nat
    decreases types.len(),
{
    if types.len() == 0 {
        0
    } else {
        payload_bytes(types.drop_last()) + value_bytes(types.last())
    }
}

/// The most bytes that a row takes, as far as they can be counted.
pub open spec fn row_bytes(types: Seq<OracleType>) -> u64 {
    row::saturated(
        (vstd::layout::size_of::<Row>() + types.len() * vstd::layout::size_of::<CellValue>()
            + payload_bytes(types)) as int,
    )
}

/// The lesser of two numbers.
pub open spec fn lesser(a: nat, b: nat) -> nat {
    if a < b {
        a
    } else {
        b
    }
}

/// How many rows one fetch asks for: no more than a page holds, than are fetched at a time,
/// and than fit the byte budget at their largest; but one at least.
pub open spec fn fetch_rows(types: Seq<OracleType>, max_rows: nat, fetch_size: nat, limit: u64) -> nat {
    let widest = if row_bytes(types) < 1 {
        1
    } else {
        row_bytes(types) as nat
    };
    let rows = lesser(lesser(max_rows, fetch_size), limit as nat / widest);
    if rows < 1 {
        1
    } else {
        rows
    }
}

fn widest_row(types: &Vec<OracleType>) -> (n: u64)
    ensures
        n == row_bytes(types@),
{
    let header: u128 = core::mem::size_of::<Row>() as u128;
    let slot: u128 = core::mem::size_of::<CellValue>() as u128;
    let count: u128 = types.len() as u128;
    assert(count * slot <= 0xffff_ffff_ffff_ffff * 0xffff_ffff_ffff_ffff) by (nonlinear_arith)
        requires
            0 <= count <= 0xffff_ffff_ffff_ffff,
            0 <= slot <= 0xffff_ffff_ffff_ffff,
    ;
    let slots: u128 = count * slot;
    let frame: u128 = match slots.checked_add(header) {
        Some(frame) => frame,
        None => u128::MAX,
    };
    if frame > u64::MAX as u128 {
        return u64::MAX;
    }
    let mut total: u64 = frame as u64;
    let mut i: usize = 0;
    assert(types@.take(0) =~= Seq::empty());
    while i < types.len()
        invariant
            i <= types@.len(),
            frame == vstd::layout::size_of::<Row>() + types@.len() * vstd::layout::size_of::<
                CellValue,
            >(),
            total == row::saturated((frame + payload_bytes(types@.take(i as int))) as int),
        decreases types.len() - i,
    {
        let ghost next = types@.take(i + 1);
        assert(next.drop_last() =~= types@.take(i as int));
        assert(next.last() == types@[i as int]);
        total = total.saturating_add(max_normalized_value_bytes(&types[i]));
        i += 1;
    }
    assert(types@.take(types@.len() as int) =~= types@);
    total
}

/// Caps the rows of one native fetch by the row, fetch and byte limits.
pub fn bounded_fetch_array_size(types: &Vec<OracleType>, query: &CompiledQuery) -> (rows: u32)
    ensures
        rows == fetch_rows(
            types@,
            query.bounds().max_rows_per_poll as nat,
            query.bounds().fetch_size_rows as nat,
            query.bounds().max_batch_bytes,
        ),
{
    let widest: u64 = widest_row(types);
    let divisor: u64 = if widest < 1 {
        1
    } else {
        widest
    };
    let by_bytes: u64 = query.max_normalized_bytes() / divisor;
    let max_rows: u64 = query.max_rows() as u64;
    let fetch_size: u64 = query.fetch_size_rows() as u64;
    let mut rows: u64 = if max_rows < fetch_size {
        max_rows
    } else {
        fetch_size
    };
    if by_bytes < rows {
        rows = by_bytes;
    }
    if rows < 1 {
        rows = 1;
    }
    rows as u32
}

/// A native fetch buffer stays within the byte budget wherever one row does.
pub proof fn law_fetch_buffer_is_bounded(
    types: Seq<OracleType>,
    max_rows: nat,
    fetch_size: nat,
    limit: u64,
)
    ensures
        fetch_rows(types, max_rows, fetch_size, limit) >= 1,
        row_bytes(types) <= limit ==> fetch_rows(types, max_rows, fetch_size, limit) * row_bytes(
            types,
        ) <= limit,
{
    let bytes = row_bytes(types) as int;
    let rows = fetch_rows(types, max_rows, fetch_size, limit) as int;
    if 1 <= bytes <= limit {
        let most = limit as int / bytes;
        assert(most * bytes <= limit) by (nonlinear_arith)
            requires
                most == limit as int / bytes,
                bytes >= 1,
        ;
        if rows <= most {
            assert(rows * bytes <= most * bytes) by (nonlinear_arith)
                requires
                    rows <= most,
                    bytes >= 1,
            ;
        } else {
            assert(rows == 1);
        }
    } else {
        assert(rows * bytes == 0 || bytes > limit) by (nonlinear_arith)
            requires
                bytes == 0 || bytes > limit,
        ;
    }
}

/// The column of a name is the first that is spelt so but for case; there is none exactly when
/// no column is.
pub proof fn law_column_of_a_name_is_the_first(columns: Seq<OracleColumn>, name: Seq<char>)
    ensures
        column_at(columns, name) matches Some(at) ==> 0 <= at < columns.len() && text::spells_alike(
            columns[at].name@,
            name,
        ) && (forall|i: int|
            0 <= i < at ==> !text::spells_alike((#[trigger] columns[i]).name@, name)),
        column_at(columns, name) is None <==> forall|i: int|
            0 <= i < columns.len() ==> !text::spells_alike((#[trigger] columns[i]).name@, name),
    decreases columns.len(),
{
    if columns.len() > 0 {
        let less = columns.drop_last();
        let last = columns.len() - 1;
        law_column_of_a_name_is_the_first(less, name);
        text::law_case_is_all_that_is_ignored(columns[last].name@, name);
        if column_at(less, name) is None {
            assert forall|i: int| 0 <= i < last implies !text::spells_alike(
                (#[trigger] columns[i]).name@,
                name,
            ) by {
                assert(less[i] == columns[i]);
            }
        } else {
            let at = column_at(less, name)->0;
            assert(less[at] == columns[at]);
            assert forall|i: int| 0 <= i < at implies !text::spells_alike(
                (#[trigger] columns[i]).name@,
                name,
            ) by {
                assert(less[i] == columns[i]);
            }
        }
    }
}

/// The type that is refused is that of the first column of an unsupported type; none is
/// refused exactly when all are supported.
pub proof fn law_first_unsupported_column_is_refused(columns: Seq<OracleColumn>)
    ensures
        first_unsupported(columns) is None <==> forall|i: int|
            0 <= i < columns.len() ==> (#[trigger] columns[i]).oracle_type != OracleType::Unsupported,
        first_unsupported(columns) matches Some(name) ==> exists|i: int|
            0 <= i < columns.len() && (#[trigger] columns[i]).oracle_type == OracleType::Unsupported
                && columns[i].source_type == name && (forall|j: int|
                0 <= j < i ==> (#[trigger] columns[j]).oracle_type != OracleType::Unsupported),
    decreases columns.len(),
{
    if columns.len() > 0 {
        let less = columns.drop_last();
        let last = columns.len() - 1;
        law_first_unsupported_column_is_refused(less);
        assert(columns[last] == columns.last());
        if first_unsupported(less) is None {
            assert forall|i: int| 0 <= i < last implies (#[trigger] columns[i]).oracle_type
                != OracleType::Unsupported by {
                assert(less[i] == columns[i]);
            }
        } else {
            let name = first_unsupported(less)->0;
            let i = choose|i: int|
                0 <= i < less.len() && (#[trigger] less[i]).oracle_type == OracleType::Unsupported
                    && less[i].source_type == name && (forall|j: int|
                    0 <= j < i ==> (#[trigger] less[j]).oracle_type != OracleType::Unsupported);
            assert(columns[i] == less[i]);
            assert forall|j: int| 0 <= j < i implies (#[trigger] columns[j]).oracle_type
                != OracleType::Unsupported by {
                assert(less[j] == columns[j]);
            }
        }
    }
}

/// A result has a usable cursor exactly when both columns are there, the one a date or
/// timestamp and the other a whole number of at most eighteen digits or 64 bits.
pub proof fn law_usable_cursors_are_a_time_and_an_integer(
    columns: Seq<OracleColumn>,
    watermark: CompositeWatermark,
)
    ensures
        cursor_failure(columns, watermark) is None <==> {
            &&& column_at(columns, watermark.timestamp_column@) is Some
            &&& column_at(columns, watermark.tie_breaker_column@) is Some
            &&& match columns[column_at(columns, watermark.timestamp_column@)->0].oracle_type {
                OracleType::Date => true,
                OracleType::Timestamp(_) => true,
                OracleType::TimestampTZ(_) => true,
                OracleType::TimestampLTZ(_) => true,
                _ => false,
            }
            &&& match columns[column_at(columns, watermark.tie_breaker_column@)->0].oracle_type {
                OracleType::Int64 => true,
                OracleType::Number(precision, scale) => scale == 0 && precision > 0 && precision < 19,
                _ => false,
            }
        },
{
}

/// One fetch asks for one row at least, and for no more than a page holds, than are to be
/// fetched at a time, or than surely fit the byte budget; and for as many as all of these
/// allow.
pub proof fn law_fetches_are_as_large_as_allowed(
    types: Seq<OracleType>,
    max_rows: nat,
    fetch_size: nat,
    limit: u64,
)
    ensures
        ({
            let rows = fetch_rows(types, max_rows, fetch_size, limit);
            let widest = if row_bytes(types) == 0 {
                1int
            } else {
                row_bytes(types) as int
            };
            &&& rows >= 1
            &&& rows > 1 ==> rows <= max_rows && rows <= fetch_size && rows * widest <= limit
            &&& forall|more: nat| #[trigger]
                (more * widest) <= limit && more <= max_rows && more <= fetch_size ==> more <= rows
        }),
{
    let rows = fetch_rows(types, max_rows, fetch_size, limit) as int;
    let widest = if row_bytes(types) == 0 {
        1int
    } else {
        row_bytes(types) as int
    };
    let most = limit as int / widest;
    assert(most * widest <= limit && (most + 1) * widest > limit) by (nonlinear_arith)
        requires
            most == limit as int / widest,
            widest >= 1,
            limit >= 0,
    ;
    if rows > 1 {
        assert(rows * widest <= most * widest) by (nonlinear_arith)
            requires
                rows <= most,
                widest >= 1,
        ;
    }
    assert forall|more: nat| #[trigger]
        (more * widest) <= limit && more <= max_rows && more <= fetch_size implies more <= rows by {
        let many = more as int;
        assert(many <= most) by (nonlinear_arith)
            requires
                many * widest <= limit,
                (most + 1) * widest > limit,
                widest >= 1,
        ;
    }
}

/// The room that is kept for a value suffices for its type: the declared bytes, four for each
/// declared character, and enough for the text of any number, date, timestamp, interval or row
/// address.
pub proof fn law_room_for_a_value(oracle_type: OracleType)
    ensures
        match oracle_type {
            OracleType::Varchar2(n) => value_bytes(oracle_type) == n,
            OracleType::Char(n) => value_bytes(oracle_type) == n,
            OracleType::Raw(n) => value_bytes(oracle_type) == n,
            OracleType::NVarchar2(n) => value_bytes(oracle_type) == 4 * n,
            OracleType::NChar(n) => value_bytes(oracle_type) == 4 * n,
            OracleType::BinaryFloat => value_bytes(oracle_type) == 8,
            OracleType::BinaryDouble => value_bytes(oracle_type) == 8,
            OracleType::Int64 => value_bytes(oracle_type) == 8,
            OracleType::UInt64 => value_bytes(oracle_type) == 8,
            OracleType::Boolean => value_bytes(oracle_type) == 1,
            OracleType::Unsupported => value_bytes(oracle_type) == 0,
            _ => value_bytes(oracle_type) == 128,
        },
{
}

/// The room for the values of a row adds up: one more column adds its own.
pub proof fn law_room_for_a_row_adds_up(types: Seq<OracleType>, more: OracleType)
    ensures
        payload_bytes(Seq::empty()) == 0,
        payload_bytes(types.push(more)) == payload_bytes(types) + value_bytes(more),
        row_bytes(types) < u64::MAX ==> row_bytes(types) == vstd::layout::size_of::<Row>()
            + types.len() * vstd::layout::size_of::<CellValue>() + payload_bytes(types),
{
    assert(types.push(more).drop_last() =~= types);
}

/// A result matches a plan exactly when it has as many columns, each of the same name and type
/// in the same place. The result that a plan was made for matches it.
pub proof fn law_matching_results_are_decoded_alike(
    columns: Seq<OracleColumn>,
    metadata: Seq<ColumnMetadata>,
    types: Seq<OracleType>,
)
    ensures
        still_matches(columns, metadata, types) <==> metadata.len() == columns.len() && forall|i: int|
            0 <= i < columns.len() ==> metadata[i].name@ == (#[trigger] columns[i]).name@
                && types[i] == columns[i].oracle_type,
        are_described(metadata, columns) && types == types_of(columns) ==> still_matches(
            columns,
            metadata,
            types,
        ),
{
    if are_described(metadata, columns) && types == types_of(columns) {
        assert forall|i: int| 0 <= i < columns.len() implies (#[trigger] columns[i]).name@
            == metadata[i].name@ && columns[i].oracle_type == types[i] by {
            assert(is_described(metadata[i], columns[i]));
        }
    }
}

/// Described columns are the result's own, each with its name, its type's name and whether it
/// may be NULL, in the same order.
pub proof fn law_columns_are_described_as_they_are(
    metadata: Seq<ColumnMetadata>,
    columns: Seq<OracleColumn>,
    i: int,
)
    requires
        are_described(metadata, columns),
        0 <= i < columns.len(),
    ensures
        metadata.len() == columns.len(),
        metadata[i].name == columns[i].name,
        metadata[i].source_type == columns[i].source_type,
        metadata[i].nullable == columns[i].nullable,
        types_of(columns).len() == columns.len(),
        types_of(columns)[i] == columns[i].oracle_type,
{
    assert(is_described(metadata[i], columns[i]));
}

} // verus!
