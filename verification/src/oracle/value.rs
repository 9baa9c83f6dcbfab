//! Oracle scalar normalization without loss of precision.

use crate::database::row::{Cell, CellValue, Row};
use crate::double;
use crate::double::Double;
use crate::oracle::error::OracleAdapterError;
use crate::oracle::timestamp;
use crate::oracle::timestamp::{cursor_text, format_oracle_timestamp, OracleTimestamp};
use crate::oracle::types::OracleType;
use crate::polling;
use crate::polling::{CompositeCursor, CompositeWatermark};
use vstd::prelude::*;

verus! {

/// The form in which a value is fetched from the client library.
#[derive(Clone, Copy, Debug, PartialEq, Eq, Structural)]
pub enum NativeKind {
    /// Text.
    Text,
    /// Bytes.
    Bytes,
    /// A single.
    Single,
    /// A double.
    Double,
    /// A timestamp.
    Timestamp,
    /// A day-to-second interval.
    IntervalDS,
    /// A year-to-month interval.
    IntervalYM,
    /// A 64-bit integer.
    Int64,
    /// An unsigned 64-bit integer.
    UInt64,
    /// A boolean.
    Bool,
}

/// A value as it was fetched.
pub enum NativeValue {
    /// SQL NULL.
    Null,
    /// Text, or the text of an interval.
    Text(String),
    /// Bytes.
    Bytes(Vec<u8>),
    /// The bits of a single.
    Single(u32),
    /// The bits of a double.
    Double(u64),
    /// A timestamp.
    Timestamp(OracleTimestamp),
    /// A 64-bit integer.
    Int64(i64),
    /// An unsigned 64-bit integer.
    UInt64(u64),
    /// A boolean.
    Bool(bool),
}

/// The form in which values of a type are fetched, if they are.
pub open spec fn kind_of(oracle_type: OracleType) -> Option<NativeKind> {
    match oracle_type {
        OracleType::Varchar2(_) => Some(NativeKind::Text),
        OracleType::NVarchar2(_) => Some(NativeKind::Text),
        OracleType::Char(_) => Some(NativeKind::Text),
        OracleType::NChar(_) => Some(NativeKind::Text),
        OracleType::Rowid => Some(NativeKind::Text),
        OracleType::Raw(_) => Some(NativeKind::Bytes),
        OracleType::BinaryFloat => Some(NativeKind::Single),
        OracleType::BinaryDouble => Some(NativeKind::Double),
        OracleType::Number(_, _) => Some(NativeKind::Text),
        OracleType::Float(_) => Some(NativeKind::Text),
        OracleType::Date => Some(NativeKind::Timestamp),
        OracleType::Timestamp(_) => Some(NativeKind::Timestamp),
        OracleType::TimestampTZ(_) => Some(NativeKind::Timestamp),
        OracleType::TimestampLTZ(_) => Some(NativeKind::Timestamp),
        OracleType::IntervalDS(_, _) => Some(NativeKind::IntervalDS),
        OracleType::IntervalYM(_) => Some(NativeKind::IntervalYM),
        OracleType::Int64 => Some(NativeKind::Int64),
        OracleType::UInt64 => Some(NativeKind::UInt64),
        OracleType::Boolean => Some(NativeKind::Bool),
        OracleType::Unsupported => None,
    }
}

/// Whether a value is of a form.
pub open spec fn is_of(value: NativeValue, kind: NativeKind) -> bool {
    match value {
        NativeValue::Null => true,
        NativeValue::Text(_) => kind is Text || kind is IntervalDS || kind is IntervalYM,
        NativeValue::Bytes(_) => kind is Bytes,
        NativeValue::Single(_) => kind is Single,
        NativeValue::Double(_) => kind is Double,
        NativeValue::Timestamp(_) => kind is Timestamp,
        NativeValue::Int64(_) => kind is Int64,
        NativeValue::UInt64(_) => kind is UInt64,
        NativeValue::Bool(_) => kind is Bool,
    }
}

/// Whether a value can stand in a column of a type.
pub open spec fn suits(oracle_type: OracleType, value: NativeValue) -> bool {
    kind_of(oracle_type) matches Some(kind) && is_of(value, kind)
}

/// The form in which values of a type are fetched.
pub fn native_kind(oracle_type: &OracleType) -> (r: Option<NativeKind>)
    ensures
        r == kind_of(*oracle_type),
{
    match oracle_type {
        OracleType::Varchar2(_) => Some(NativeKind::Text),
        OracleType::NVarchar2(_) => Some(NativeKind::Text),
        OracleType::Char(_) => Some(NativeKind::Text),
        OracleType::NChar(_) => Some(NativeKind::Text),
        OracleType::Rowid => Some(NativeKind::Text),
        OracleType::Raw(_) => Some(NativeKind::Bytes),
        OracleType::BinaryFloat => Some(NativeKind::Single),
        OracleType::BinaryDouble => Some(NativeKind::Double),
        OracleType::Number(_, _) => Some(NativeKind::Text),
        OracleType::Float(_) => Some(NativeKind::Text),
        OracleType::Date => Some(NativeKind::Timestamp),
        OracleType::Timestamp(_) => Some(NativeKind::Timestamp),
        OracleType::TimestampTZ(_) => Some(NativeKind::Timestamp),
        OracleType::TimestampLTZ(_) => Some(NativeKind::Timestamp),
        OracleType::IntervalDS(_, _) => Some(NativeKind::IntervalDS),
        OracleType::IntervalYM(_) => Some(NativeKind::IntervalYM),
        OracleType::Int64 => Some(NativeKind::Int64),
        OracleType::UInt64 => Some(NativeKind::UInt64),
        OracleType::Boolean => Some(NativeKind::Bool),
        OracleType::Unsupported => None,
    }
}

/// Whether a value can stand in a column of a type.
pub fn fits_column(oracle_type: &OracleType, value: &NativeValue) -> (found: bool)
    ensures
        found == suits(*oracle_type, *value),
{
    match native_kind(oracle_type) {
        None => false,
        Some(kind) => match value {
            NativeValue::Null => true,
            NativeValue::Text(_) => matches!(
                kind,
                NativeKind::Text | NativeKind::IntervalDS | NativeKind::IntervalYM
            ),
            NativeValue::Bytes(_) => matches!(kind, NativeKind::Bytes),
            NativeValue::Single(_) => matches!(kind, NativeKind::Single),
            NativeValue::Double(_) => matches!(kind, NativeKind::Double),
            NativeValue::Timestamp(_) => matches!(kind, NativeKind::Timestamp),
            NativeValue::Int64(_) => matches!(kind, NativeKind::Int64),
            NativeValue::UInt64(_) => matches!(kind, NativeKind::UInt64),
            NativeValue::Bool(_) => matches!(kind, NativeKind::Bool),
        },
    }
}

/// Whether a type's timestamps have an offset.
pub open spec fn is_zoned(oracle_type: OracleType) -> bool {
    oracle_type is TimestampTZ || oracle_type is TimestampLTZ
}

/// The normal form of a value, if it has one. A double that is no number has none.
pub open spec fn normal_cell(oracle_type: OracleType, value: NativeValue) -> Option<Cell> {
    match value {
        NativeValue::Null => Some(Cell::Null),
        NativeValue::Text(text) => Some(
            if oracle_type is Number || oracle_type is Float {
                Cell::Decimal(text@)
            } else if oracle_type is IntervalDS || oracle_type is IntervalYM {
                Cell::Interval(text@)
            } else {
                Cell::Text(text@)
            },
        ),
        NativeValue::Bytes(bytes) => Some(Cell::Bytes(bytes@)),
        NativeValue::Single(bits) => finite_cell(double::widened(bits)),
        NativeValue::Double(bits) => finite_cell(bits),
        NativeValue::Timestamp(ts) => Some(
            if is_zoned(oracle_type) {
                Cell::TimestampTz(timestamp::normal_text(ts, true))
            } else {
                Cell::Timestamp(timestamp::normal_text(ts, false))
            },
        ),
        NativeValue::Int64(value) => Some(Cell::Int64(value)),
        NativeValue::UInt64(value) => Some(Cell::UInt64(value)),
        NativeValue::Bool(value) => Some(Cell::Bool(value)),
    }
}

/// A double's value, if it is a number.
pub open spec fn finite_cell(bits: u64) -> Option<Cell> {
    if double::finite(bits) {
        Some(Cell::Float64(Double { bits }))
    } else {
        None
    }
}

/// Rejects NaN and infinity because OTLP cannot preserve them portably.
pub fn finite_float(value: CellValue) -> (r: Result<CellValue, OracleAdapterError>)
    ensures
        match value {
            CellValue::Float64(number) => if double::finite(number.bits) {
                r == Ok::<CellValue, OracleAdapterError>(value)
            } else {
                r == Err::<CellValue, OracleAdapterError>(OracleAdapterError::NonFiniteFloat)
            },
            _ => r == Ok::<CellValue, OracleAdapterError>(value),
        },
{
    if let CellValue::Float64(number) = &value {
        if !number.is_finite() {
            return Err(OracleAdapterError::NonFiniteFloat);
        }
    }
    Ok(value)
}

/// Converts one fetched value into the closed neutral value model.
pub fn normalize_cell(oracle_type: &OracleType, value: NativeValue) -> (r: Result<
    CellValue,
    OracleAdapterError,
>)
    requires
        suits(*oracle_type, value),
    ensures
        match r {
            Ok(cell) => normal_cell(*oracle_type, value) == Some(cell@),
            Err(error) => error == OracleAdapterError::NonFiniteFloat && normal_cell(
                *oracle_type,
                value,
            ) is None,
        },
{
    match value {
        NativeValue::Null => Ok(CellValue::Null),
        NativeValue::Text(text) => Ok(
            match oracle_type {
                OracleType::Number(_, _) => CellValue::Decimal(text),
                OracleType::Float(_) => CellValue::Decimal(text),
                OracleType::IntervalDS(_, _) => CellValue::Interval(text),
                OracleType::IntervalYM(_) => CellValue::Interval(text),
                _ => CellValue::String(text),
            },
        ),
        NativeValue::Bytes(bytes) => Ok(CellValue::Bytes(bytes)),
        NativeValue::Single(bits) => finite_float(CellValue::Float64(Double::widen(bits))),
        NativeValue::Double(bits) => finite_float(CellValue::Float64(Double { bits })),
        NativeValue::Timestamp(ts) => Ok(
            match oracle_type {
                OracleType::TimestampTZ(_) => CellValue::TimestampTz(
                    format_oracle_timestamp(&ts, true),
                ),
                OracleType::TimestampLTZ(_) => CellValue::TimestampTz(
                    format_oracle_timestamp(&ts, true),
                ),
                _ => CellValue::Timestamp(format_oracle_timestamp(&ts, false)),
            },
        ),
        NativeValue::Int64(value) => Ok(CellValue::Int64(value)),
        NativeValue::UInt64(value) => Ok(CellValue::UInt64(value)),
        NativeValue::Bool(value) => Ok(CellValue::Bool(value)),
    }
}

/// Whether a row's values can stand in its columns.
pub open spec fn row_suits(types: Seq<OracleType>, values: Seq<NativeValue>) -> bool {
    types.len() == values.len() && forall|i: int|
        0 <= i < types.len() ==> suits(types[i], #[trigger] values[i])
}

/// Whether cells are the normal forms of a row's values.
pub open spec fn is_normal(cells: Seq<Cell>, types: Seq<OracleType>, values: Seq<NativeValue>) -> bool {
    cells.len() == values.len() && forall|i: int|
        0 <= i < cells.len() ==> normal_cell(types[i], #[trigger] values[i]) == Some(cells[i])
}

/// Converts every value of one row.
pub fn normalize_row(types: &Vec<OracleType>, values: Vec<NativeValue>) -> (r: Result<
    Row,
    OracleAdapterError,
>)
    requires
        row_suits(types@, values@),
    ensures
        match r {
            Ok(row) => is_normal(polling::cells(row.values@), types@, values@),
            Err(error) => error == OracleAdapterError::NonFiniteFloat && exists|i: int|
                0 <= i < values@.len() && normal_cell(types@[i], #[trigger] values@[i]) is None,
        },
{
    let ghost all = values@;
    let mut rest = values;
    let mut cells: Vec<CellValue> = Vec::new();
    let mut i: usize = 0;
    let count: usize = types.len();
    while i < count
        invariant
            i <= count,
            count == types@.len(),
            all == values@,
            row_suits(types@, all),
            rest@ == all.skip(i as int),
            cells@.len() == i,
            forall|j: int|
                0 <= j < i ==> normal_cell(types@[j], all[j]) == Some((#[trigger] cells@[j])@),
        decreases count - i,
    {
        let value = rest.remove(0);
        assert(value == all[i as int]);
        assert(rest@ =~= all.skip(i + 1));
        assert(suits(types@[i as int], all[i as int]));
        match normalize_cell(&types[i], value) {
            Ok(cell) => {
                cells.push(cell);
            },
            Err(error) => {
                assert(normal_cell(types@[i as int], values@[i as int]) is None);
                return Err(error);
            },
        }
        i += 1;
    }
    let row = Row { values: cells };
    assert forall|j: int| 0 <= j < all.len() implies normal_cell(
        types@[j],
        #[trigger] all[j],
    ) == Some(polling::cells(row.values@)[j]) by {
        assert(polling::cells(row.values@)[j] == cells@[j]@);
    }
    Ok(row)
}

/// Takes the position of a row out of its cursor columns, rejecting NULLs.
pub fn extract_cursor(
    timestamp: Option<OracleTimestamp>,
    tie_breaker: Option<i64>,
    watermark: &CompositeWatermark,
) -> (r: Result<CompositeCursor, OracleAdapterError>)
    ensures
        match r {
            Ok(cursor) => timestamp is Some && tie_breaker is Some && cursor.timestamp@
                == timestamp::timestamp_text(timestamp->0) && cursor.tie_breaker == tie_breaker->0,
            Err(error) => if timestamp is None {
                error == OracleAdapterError::NullCursorValue(watermark.timestamp_column)
            } else {
                tie_breaker is None && error == OracleAdapterError::NullCursorValue(
                    watermark.tie_breaker_column,
                )
            },
        },
{
    match timestamp {
        None => Err(OracleAdapterError::NullCursorValue(watermark.timestamp_column.clone())),
        Some(timestamp) => match tie_breaker {
            None => Err(OracleAdapterError::NullCursorValue(watermark.tie_breaker_column.clone())),
            Some(tie_breaker) => Ok(CompositeCursor::new(cursor_text(&timestamp), tie_breaker)),
        },
    }
}

/// The cell of a value of a type with a time zone shows the date and time of the value and
/// ends with its offset: the sign, two digits of hours, a colon and two digits of minutes.
/// That of a type without one shows the date and time alone.
pub proof fn law_timestamp_cells_show_their_offset(
    oracle_type: OracleType,
    ts: timestamp::OracleTimestamp,
)
    requires
        timestamp::is_clock(ts),
    ensures
        match normal_cell(oracle_type, NativeValue::Timestamp(ts)) {
            Some(Cell::TimestampTz(t)) => {
                &&& oracle_type is TimestampTZ || oracle_type is TimestampLTZ
                &&& t.len() >= 6
                &&& timestamp::shows_offset(t, t.len() - 6, ts)
                &&& timestamp::shows_local(t.take(t.len() - 6), ts)
            },
            Some(Cell::Timestamp(t)) => {
                &&& !(oracle_type is TimestampTZ) && !(oracle_type is TimestampLTZ)
                &&& timestamp::shows_local(t, ts)
            },
            _ => false,
        },
{
    timestamp::law_normal_form_shows_the_timestamp(ts);
}

/// Two values of a type with a time zone that differ in their offset have different cells,
/// and so have any two that differ in their date, their time or their nanosecond.
pub proof fn law_timestamp_cells_tell_values_apart(
    oracle_type: OracleType,
    a: timestamp::OracleTimestamp,
    b: timestamp::OracleTimestamp,
)
    requires
        timestamp::is_clock(a),
        timestamp::is_clock(b),
        -999 <= a.year <= 9999,
        -999 <= b.year <= 9999,
        a.tz_hour_offset < 0 ==> a.tz_minute_offset <= 0,
        a.tz_hour_offset > 0 ==> a.tz_minute_offset >= 0,
        b.tz_hour_offset < 0 ==> b.tz_minute_offset <= 0,
        b.tz_hour_offset > 0 ==> b.tz_minute_offset >= 0,
        normal_cell(oracle_type, NativeValue::Timestamp(a)) == normal_cell(
            oracle_type,
            NativeValue::Timestamp(b),
        ),
    ensures
        a.year == b.year && a.month == b.month && a.day == b.day,
        a.hour == b.hour && a.minute == b.minute && a.second == b.second,
        a.nanosecond == b.nanosecond,
        oracle_type is TimestampTZ || oracle_type is TimestampLTZ ==> a.tz_hour_offset
            == b.tz_hour_offset && a.tz_minute_offset == b.tz_minute_offset,
{
    timestamp::law_normal_form_tells_timestamps_apart(a, b);
}

/// The cell of a value of a type with a time zone, read as RFC 3339, is the value's instant.
pub proof fn law_zoned_cells_are_instants(
    oracle_type: OracleType,
    ts: timestamp::OracleTimestamp,
    day: spec_fn(int, int, int) -> int,
)
    requires
        oracle_type is TimestampTZ || oracle_type is TimestampLTZ,
        timestamp::is_clock(ts),
        0 <= ts.year <= 9999,
        ts.tz_hour_offset < 0 ==> ts.tz_minute_offset <= 0,
        ts.tz_hour_offset > 0 ==> ts.tz_minute_offset >= 0,
    ensures
        normal_cell(oracle_type, NativeValue::Timestamp(ts)) matches Some(Cell::TimestampTz(t))
            && timestamp::rfc3339_nanos(t, day) == (day(
            ts.year as int,
            ts.month as int,
            ts.day as int,
        ) * 86400 + ts.hour * 3600 + ts.minute * 60 + ts.second - (ts.tz_hour_offset * 60
            + ts.tz_minute_offset) * 60) * 1_000_000_000 + ts.nanosecond,
{
    timestamp::law_normal_form_is_the_instant(ts, day);
}

/// Every other value is kept as it is: a NULL, a text, an integer, a boolean or bytes, and a
/// double wherever it is a number. Texts of numbers stay decimals and texts of intervals stay
/// intervals.
pub proof fn law_cells_keep_their_values(oracle_type: OracleType, value: NativeValue)
    ensures
        match value {
            NativeValue::Null => normal_cell(oracle_type, value) == Some(Cell::Null),
            NativeValue::Text(text) => match normal_cell(oracle_type, value) {
                Some(Cell::Decimal(t)) => t == text@ && (oracle_type is Number
                    || oracle_type is Float),
                Some(Cell::Interval(t)) => t == text@ && (oracle_type is IntervalDS
                    || oracle_type is IntervalYM),
                Some(Cell::Text(t)) => t == text@ && !(oracle_type is Number) && !(
                oracle_type is Float) && !(oracle_type is IntervalDS) && !(
                oracle_type is IntervalYM),
                _ => false,
            },
            NativeValue::Bytes(bytes) => normal_cell(oracle_type, value) matches Some(
                Cell::Bytes(kept),
            ) && kept == bytes@,
            NativeValue::Int64(n) => normal_cell(oracle_type, value) matches Some(Cell::Int64(m))
                && m == n,
            NativeValue::UInt64(n) => normal_cell(oracle_type, value) matches Some(Cell::UInt64(m))
                && m == n,
            NativeValue::Bool(b) => normal_cell(oracle_type, value) matches Some(Cell::Bool(c))
                && c == b,
            NativeValue::Double(bits) => match normal_cell(oracle_type, value) {
                Some(Cell::Float64(d)) => d.bits == bits && double::finite(bits),
                None => !double::finite(bits),
                _ => false,
            },
            NativeValue::Single(bits) => match normal_cell(oracle_type, value) {
                Some(Cell::Float64(d)) => d.bits == double::widened(bits) && double::finite(d.bits),
                None => !double::finite(double::widened(bits)),
                _ => false,
            },
            NativeValue::Timestamp(_) => true,
        },
{
}

/// Every supported type is fetched in the one form that keeps its values, and nothing else
/// can stand in a column of it but a NULL.
pub proof fn law_types_are_fetched_without_loss(oracle_type: OracleType, value: NativeValue)
    ensures
        oracle_type is Unsupported <==> !suits(oracle_type, NativeValue::Null),
        suits(oracle_type, value) ==> match value {
            NativeValue::Null => true,
            NativeValue::Text(_) => oracle_type is Varchar2 || oracle_type is NVarchar2
                || oracle_type is Char || oracle_type is NChar || oracle_type is Rowid
                || oracle_type is Number || oracle_type is Float || oracle_type is IntervalDS
                || oracle_type is IntervalYM,
            NativeValue::Bytes(_) => oracle_type is Raw,
            NativeValue::Single(_) => oracle_type is BinaryFloat,
            NativeValue::Double(_) => oracle_type is BinaryDouble,
            NativeValue::Timestamp(_) => oracle_type is Date || oracle_type is Timestamp
                || oracle_type is TimestampTZ || oracle_type is TimestampLTZ,
            NativeValue::Int64(_) => oracle_type is Int64,
            NativeValue::UInt64(_) => oracle_type is UInt64,
            NativeValue::Bool(_) => oracle_type is Boolean,
        },
        oracle_type is Raw && value is Bytes ==> suits(oracle_type, value),
        oracle_type is BinaryFloat && value is Single ==> suits(oracle_type, value),
        oracle_type is BinaryDouble && value is Double ==> suits(oracle_type, value),
        oracle_type is Int64 && value is Int64 ==> suits(oracle_type, value),
        oracle_type is UInt64 && value is UInt64 ==> suits(oracle_type, value),
        oracle_type is Boolean && value is Bool ==> suits(oracle_type, value),
        (oracle_type is Number || oracle_type is Varchar2 || oracle_type is IntervalDS
            || oracle_type is IntervalYM) && value is Text ==> suits(oracle_type, value),
        (oracle_type is Date || oracle_type is TimestampTZ) && value is Timestamp ==> suits(
            oracle_type,
            value,
        ),
{
}

} // verus!
