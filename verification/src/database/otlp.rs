//! Shared typed database-row to OTLP log conversion.

use crate::calendar;
use crate::calendar::{parse_naive, parse_rfc3339, Moment};
use crate::database::config::OutputConfig;
use crate::database::driver;
use crate::database::driver::DatabaseSystem;
use crate::database::row::{CellValue, ColumnMetadata, Row, RowBatch};
use crate::double;
use crate::json;
use crate::json::{JsonNumber, JsonTree, JsonValue};
use crate::names::NameMap;
use crate::otlp;
use crate::otlp::{
    array_value, bool_value, double_value, empty_value, int_value, key_value, pairs_value, text_value,
    Any, AnyValue, InstrumentationScope, KeyValue, LogRecord, LogsData, Pair, Resource, ResourceLogs,
    ScopeLogs,
};
use crate::text;
use crate::text::{append_decimal, owned, same_but_case};
use base64::Engine;
use vstd::prelude::*;

verus! {

/// A digit of the standard base64 alphabet.
pub open spec fn base64_digit(sextet: int) -> char {
    if sextet < 26 {
        (65 + sextet) as char
    } else if sextet < 52 {
        (71 + sextet) as char
    } else if sextet < 62 {
        (sextet - 4) as char
    } else if sextet == 62 {
        '+'
    } else {
        '/'
    }
}

/// Standard base64 with padding: three bytes make four digits, six bits each.
pub open spec fn base64_text(bytes: Seq<u8>) -> Seq<char>
    decreases bytes.len(),
{
    let a = bytes[0] as int;
    let b = bytes[1] as int;
    let c = bytes[2] as int;
    if bytes.len() == 0 {
        Seq::empty()
    } else if bytes.len() == 1 {
        seq![base64_digit(a / 4), base64_digit(a % 4 * 16), '=', '=']
    } else if bytes.len() == 2 {
        seq![
            base64_digit(a / 4),
            base64_digit(a % 4 * 16 + b / 16),
            base64_digit(b % 16 * 4),
            '=',
        ]
    } else {
        seq![
            base64_digit(a / 4),
            base64_digit(a % 4 * 16 + b / 16),
            base64_digit(b % 16 * 4 + c / 64),
            base64_digit(c % 64),
        ] + base64_text(bytes.skip(3))
    }
}

/// `base64::engine::general_purpose::STANDARD.encode`: standard base64 with padding.
#[verifier::external_body]
fn encode_base64(bytes: &Vec<u8>) -> (r: String)
    ensures
        r@ == base64_text(bytes@),
{
    base64::engine::general_purpose::STANDARD.encode(bytes)
}

/// The name under which a query is known in its logs.
pub const QUERY_NAME_ATTRIBUTE: &'static str = "receiver.database.query.name";

/// The name of this instrumentation.
pub const DATABASE_SCOPE: &'static str = "otel-arrow.database_receiver";

/// The version of this instrumentation.
pub const DATABASE_SCOPE_VERSION: &'static str = "0.1.0";

/// The OTLP severity number of INFO.
pub const SEVERITY_INFO: i32 = 9;

/// How an event time without an offset is written.
pub const NAIVE_TIME_FORMAT: &'static str = "%Y-%m-%d %H:%M:%S%.f";

/// Shared row-to-OTLP mapping failure.
#[derive(Debug)]
pub enum OtlpMappingError {
    /// Output configuration references a result column that does not exist.
    UnknownColumn {
        /// Missing column.
        name: String,
    },
    /// A float cannot be represented in OTLP or JSON.
    NonFiniteFloat,
    /// JSON source text is malformed.
    Json,
    /// Event-time column has an unsupported value type.
    InvalidEventTimeType {
        /// Configured column.
        column: String,
    },
    /// Event-time text could not be parsed.
    InvalidEventTime {
        /// Configured column.
        column: String,
    },
    /// Event timestamp cannot fit the OTLP unsigned nanosecond field.
    EventTimeOutOfRange {
        /// Configured column.
        column: String,
    },
    /// Resource attribute escaped semantic validation.
    InvalidResourceAttribute,
}

/// A mapping failure with its text.
pub enum MappingFailure {
    UnknownColumn(Seq<char>),
    NonFiniteFloat,
    Json,
    InvalidEventTimeType(Seq<char>),
    InvalidEventTime(Seq<char>),
    EventTimeOutOfRange(Seq<char>),
    InvalidResourceAttribute,
}

impl View for OtlpMappingError {
    type V = MappingFailure;

    open spec fn view(&self) -> MappingFailure {
        match self {
            OtlpMappingError::UnknownColumn { name } => MappingFailure::UnknownColumn(name@),
            OtlpMappingError::NonFiniteFloat => MappingFailure::NonFiniteFloat,
            OtlpMappingError::Json => MappingFailure::Json,
            OtlpMappingError::InvalidEventTimeType { column } =>
                MappingFailure::InvalidEventTimeType(column@),
            OtlpMappingError::InvalidEventTime { column } => MappingFailure::InvalidEventTime(
                column@,
            ),
            OtlpMappingError::EventTimeOutOfRange { column } =>
                MappingFailure::EventTimeOutOfRange(column@),
            OtlpMappingError::InvalidResourceAttribute => MappingFailure::InvalidResourceAttribute,
        }
    }
}

/// What an operator is told of a mapping failure.
pub open spec fn mapping_message(failure: MappingFailure) -> Seq<char> {
    match failure {
        MappingFailure::UnknownColumn(name) => "configured output column '"@ + name
            + "' is not present in the result metadata"@,
        MappingFailure::NonFiniteFloat => "non-finite floating-point values are not supported"@,
        MappingFailure::Json => "JSON row mapping failed"@,
        MappingFailure::InvalidEventTimeType(column) => "event-time column '"@ + column
            + "' is not a date, timestamp, or string"@,
        MappingFailure::InvalidEventTime(column) => "event-time column '"@ + column
            + "' contains an invalid timestamp"@,
        MappingFailure::EventTimeOutOfRange(column) => "event-time column '"@ + column
            + "' is outside the supported OTLP time range"@,
        MappingFailure::InvalidResourceAttribute =>
            "resource attribute is not a supported scalar value"@,
    }
}

impl OtlpMappingError {
    /// What an operator is told of this failure.
    pub fn message(&self) -> (r: String)
        ensures
            r@ == mapping_message(self@),
    {
        match self {
            OtlpMappingError::UnknownColumn { name } => text::joined(
                "configured output column '",
                name.as_str(),
                "' is not present in the result metadata",
            ),
            OtlpMappingError::NonFiniteFloat => owned(
                "non-finite floating-point values are not supported",
            ),
            OtlpMappingError::Json => owned("JSON row mapping failed"),
            OtlpMappingError::InvalidEventTimeType { column } => text::joined(
                "event-time column '",
                column.as_str(),
                "' is not a date, timestamp, or string",
            ),
            OtlpMappingError::InvalidEventTime { column } => text::joined(
                "event-time column '",
                column.as_str(),
                "' contains an invalid timestamp",
            ),
            OtlpMappingError::EventTimeOutOfRange { column } => text::joined(
                "event-time column '",
                column.as_str(),
                "' is outside the supported OTLP time range",
            ),
            OtlpMappingError::InvalidResourceAttribute => owned(
                "resource attribute is not a supported scalar value",
            ),
        }
    }
}

/// Whether a conversion came out as its rules say.
pub open spec fn maps_to(result: Result<AnyValue, OtlpMappingError>, wanted: Result<Any, MappingFailure>) -> bool {
    match result {
        Ok(value) => wanted == Ok::<Any, MappingFailure>(otlp::any(value)),
        Err(error) => wanted == Err::<Any, MappingFailure>(error@),
    }
}

/// A natural number in OTLP: an integer when it fits one, else its decimal text.
pub open spec fn natural_any(value: u64) -> Any {
    if value <= i64::MAX {
        Any::Int(value as i64)
    } else {
        Any::Text(text::decimal(value as nat))
    }
}

fn natural_to_any(value: u64) -> (r: AnyValue)
    ensures
        otlp::any(r) == natural_any(value),
{
    if value <= i64::MAX as u64 {
        int_value(value as i64)
    } else {
        let mut digits = String::new();
        append_decimal(&mut digits, value);
        assert(digits@ =~= text::decimal(value as nat));
        text_value(digits)
    }
}

/// A scalar cell in OTLP. Text forms stay text, so that no precision is lost; bytes
/// become base64.
pub open spec fn cell_any(cell: CellValue) -> Result<Any, MappingFailure> {
    match cell {
        CellValue::Null => Ok(Any::Empty),
        CellValue::Bool(value) => Ok(Any::Bool(value)),
        CellValue::Int64(value) => Ok(Any::Int(value)),
        CellValue::UInt64(value) => Ok(natural_any(value)),
        CellValue::Float64(value) => if double::finite(value.bits) {
            Ok(Any::Double(value))
        } else {
            Err(MappingFailure::NonFiniteFloat)
        },
        CellValue::Bytes(value) => Ok(Any::Text(base64_text(value@))),
        CellValue::Decimal(value) => Ok(Any::Text(value@)),
        CellValue::String(value) => Ok(Any::Text(value@)),
        CellValue::Date(value) => Ok(Any::Text(value@)),
        CellValue::Timestamp(value) => Ok(Any::Text(value@)),
        CellValue::TimestampTz(value) => Ok(Any::Text(value@)),
        CellValue::Interval(value) => Ok(Any::Text(value@)),
        CellValue::Json(value) => Ok(Any::Text(value@)),
        CellValue::Uuid(value) => Ok(Any::Text(value@)),
    }
}

/// Converts a scalar cell.
pub fn cell_to_any(value: &CellValue) -> (r: Result<AnyValue, OtlpMappingError>)
    ensures
        maps_to(r, cell_any(*value)),
{
    match value {
        CellValue::Null => Ok(empty_value()),
        CellValue::Bool(value) => Ok(bool_value(*value)),
        CellValue::Int64(value) => Ok(int_value(*value)),
        CellValue::UInt64(value) => Ok(natural_to_any(*value)),
        CellValue::Float64(value) => if value.is_finite() {
            Ok(double_value(*value))
        } else {
            Err(OtlpMappingError::NonFiniteFloat)
        },
        CellValue::Bytes(value) => Ok(text_value(encode_base64(value))),
        CellValue::Decimal(value) => Ok(text_value(value.clone())),
        CellValue::String(value) => Ok(text_value(value.clone())),
        CellValue::Date(value) => Ok(text_value(value.clone())),
        CellValue::Timestamp(value) => Ok(text_value(value.clone())),
        CellValue::TimestampTz(value) => Ok(text_value(value.clone())),
        CellValue::Interval(value) => Ok(text_value(value.clone())),
        CellValue::Json(value) => Ok(text_value(value.clone())),
        CellValue::Uuid(value) => Ok(text_value(value.clone())),
    }
}

/// A JSON number in OTLP, with the failure that a double outside the numbers gives.
pub open spec fn number_any(number: JsonNumber, failure: MappingFailure) -> Result<
    Any,
    MappingFailure,
> {
    match number {
        JsonNumber::Natural(value) => Ok(natural_any(value)),
        JsonNumber::Negative(value) => Ok(Any::Int(value)),
        JsonNumber::Double(value) => if double::finite(value.bits) {
            Ok(Any::Double(value))
        } else {
            Err(failure)
        },
    }
}

/// Whether every number of a JSON tree is one that OTLP can hold.
pub open spec fn representable(value: JsonTree) -> bool
    decreases value,
{
    match value {
        JsonTree::Number(JsonNumber::Double(number)) => double::finite(number.bits),
        JsonTree::Items(items) => forall|i: int|
            0 <= i < items.len() ==> representable(#[trigger] items[i]),
        JsonTree::Members(members) => forall|i: int|
            0 <= i < members.len() ==> representable((#[trigger] members[i]).value),
        _ => true,
    }
}

/// A JSON tree in OTLP, kind by kind, in its own order and under its own names.
pub open spec fn json_any(value: JsonTree) -> Any
    decreases value,
{
    match value {
        JsonTree::Null => Any::Empty,
        JsonTree::Bool(value) => Any::Bool(value),
        JsonTree::Text(value) => Any::Text(value),
        JsonTree::Number(JsonNumber::Natural(value)) => natural_any(value),
        JsonTree::Number(JsonNumber::Negative(value)) => Any::Int(value),
        JsonTree::Number(JsonNumber::Double(value)) => Any::Double(value),
        JsonTree::Items(items) => Any::Array(
            Seq::new(
                items.len(),
                |i: int|
                    if 0 <= i < items.len() {
                        json_any(items[i])
                    } else {
                        Any::Empty
                    },
            ),
        ),
        JsonTree::Members(members) => Any::Pairs(
            Seq::new(
                members.len(),
                |i: int|
                    if 0 <= i < members.len() {
                        Pair { key: members[i].name, value: Some(json_any(members[i].value)) }
                    } else {
                        Pair { key: Seq::empty(), value: None }
                    },
            ),
        ),
    }
}

/// What a whole JSON tree maps to.
pub open spec fn json_result(value: JsonTree) -> Result<Any, MappingFailure> {
    if representable(value) {
        Ok(json_any(value))
    } else {
        Err(MappingFailure::NonFiniteFloat)
    }
}

/// Converts a JSON value of any depth.
pub fn json_to_any(value: &JsonValue) -> (r: Result<AnyValue, OtlpMappingError>)
    ensures
        maps_to(r, json_result(json::tree(*value))),
    decreases value,
{
    let ghost whole = json::tree(*value);
    match value {
        JsonValue::Null => Ok(empty_value()),
        JsonValue::Bool(value) => Ok(bool_value(*value)),
        JsonValue::String(value) => Ok(text_value(value.clone())),
        JsonValue::Number(JsonNumber::Natural(value)) => Ok(natural_to_any(*value)),
        JsonValue::Number(JsonNumber::Negative(value)) => Ok(int_value(*value)),
        JsonValue::Number(JsonNumber::Double(value)) => if value.is_finite() {
            Ok(double_value(*value))
        } else {
            Err(OtlpMappingError::NonFiniteFloat)
        },
        JsonValue::Array(items) => {
            let ghost trees = whole->Items_0;
            let mut values: Vec<AnyValue> = Vec::new();
            let mut i: usize = 0;
            while i < items.len()
                invariant
                    i <= items@.len(),
                    *value == JsonValue::Array(*items),
                    whole == json::tree(*value),
                    whole == JsonTree::Items(trees),
                    trees.len() == items@.len(),
                    forall|j: int|
                        0 <= j < trees.len() ==> #[trigger] trees[j] == json::tree(items@[j]),
                    values@.len() == i,
                    forall|j: int|
                        0 <= j < i ==> otlp::any(#[trigger] values@[j]) == json_any(trees[j]),
                    forall|j: int| 0 <= j < i ==> representable(#[trigger] trees[j]),
                decreases items.len() - i,
            {
                assert(trees[i as int] == json::tree(items@[i as int]));
                match json_to_any(&items[i]) {
                    Err(error) => {
                        assert(!representable(trees[i as int]));
                        return Err(error);
                    },
                    Ok(one) => {
                        values.push(one);
                    },
                }
                i += 1;
            }
            assert(values@.map_values(|one: AnyValue| otlp::any(one)) =~= json_any(
                whole,
            )->Array_0);
            Ok(array_value(values))
        },
        JsonValue::Object(members) => {
            let ghost trees = whole->Members_0;
            let mut values: Vec<KeyValue> = Vec::new();
            let mut i: usize = 0;
            while i < members.len()
                invariant
                    i <= members@.len(),
                    *value == JsonValue::Object(*members),
                    whole == json::tree(*value),
                    whole == JsonTree::Members(trees),
                    trees.len() == members@.len(),
                    forall|j: int|
                        0 <= j < trees.len() ==> (#[trigger] trees[j]).name == members@[j].name@
                            && trees[j].value == json::tree(members@[j].value),
                    values@.len() == i,
                    forall|j: int|
                        0 <= j < i ==> otlp::pair(#[trigger] values@[j]) == (Pair {
                            key: trees[j].name,
                            value: Some(json_any(trees[j].value)),
                        }),
                    forall|j: int| 0 <= j < i ==> representable((#[trigger] trees[j]).value),
                decreases members.len() - i,
            {
                assert(trees[i as int].value == json::tree(members@[i as int].value));
                match json_to_any(&members[i].value) {
                    Err(error) => {
                        assert(!representable(trees[i as int].value));
                        return Err(error);
                    },
                    Ok(one) => {
                        values.push(key_value(members[i].name.clone(), one));
                    },
                }
                i += 1;
            }
            assert(otlp::pairs(values@) =~= json_any(whole)->Pairs_0);
            Ok(pairs_value(values))
        },
    }
}

/// A cell in a log's body: JSON columns keep their structure.
pub open spec fn body_any(cell: CellValue) -> Result<Any, MappingFailure> {
    match cell {
        CellValue::Json(value) => parsed_any(json::parsed_tree(value@)),
        _ => cell_any(cell),
    }
}

/// What a JSON column maps to, given what was read in its text.
pub open spec fn parsed_any(parsed: Option<JsonTree>) -> Result<Any, MappingFailure> {
    match parsed {
        Some(value) => json_result(value),
        None => Err(MappingFailure::Json),
    }
}

/// Converts what was read in the text of a JSON column.
pub fn parsed_to_any(parsed: Option<JsonValue>) -> (r: Result<AnyValue, OtlpMappingError>)
    ensures
        parsed matches Some(value) ==> maps_to(r, json_result(json::tree(value))),
        parsed is None ==> maps_to(r, Err(MappingFailure::Json)),
{
    match parsed {
        Some(value) => json_to_any(&value),
        None => Err(OtlpMappingError::Json),
    }
}

/// Converts a cell for a log's body.
pub fn cell_to_body_any(value: &CellValue) -> (r: Result<AnyValue, OtlpMappingError>)
    ensures
        maps_to(r, body_any(*value)),
{
    match value {
        CellValue::Json(value) => parsed_to_any(json::parse(value.as_str())),
        _ => cell_to_any(value),
    }
}

/// A configured scalar in OTLP.
pub open spec fn scalar_any(value: JsonValue) -> Result<Any, MappingFailure> {
    match value {
        JsonValue::Bool(value) => Ok(Any::Bool(value)),
        JsonValue::String(value) => Ok(Any::Text(value@)),
        JsonValue::Number(number) => number_any(number, MappingFailure::InvalidResourceAttribute),
        _ => Err(MappingFailure::InvalidResourceAttribute),
    }
}

/// Converts a configured scalar.
pub fn json_scalar_to_any(value: &JsonValue) -> (r: Result<AnyValue, OtlpMappingError>)
    ensures
        maps_to(r, scalar_any(*value)),
{
    match value {
        JsonValue::Bool(value) => Ok(bool_value(*value)),
        JsonValue::String(value) => Ok(text_value(value.clone())),
        JsonValue::Number(JsonNumber::Natural(value)) => Ok(natural_to_any(*value)),
        JsonValue::Number(JsonNumber::Negative(value)) => Ok(int_value(*value)),
        JsonValue::Number(JsonNumber::Double(value)) => if value.is_finite() {
            Ok(double_value(*value))
        } else {
            Err(OtlpMappingError::InvalidResourceAttribute)
        },
        _ => Err(OtlpMappingError::InvalidResourceAttribute),
    }
}

/// Shared immutable context for OTLP row mapping.
pub struct OtlpMapping<'a> {
    /// Database vendor.
    pub system: DatabaseSystem,
    /// Stable configured query name.
    pub query_name: &'a str,
    /// Query output policy.
    pub output: &'a OutputConfig,
    /// Operator-approved resource attributes.
    pub resource_attributes: &'a NameMap<JsonValue>,
    /// Receiver observation timestamp.
    pub observed_time_unix_nano: u64,
}

/// A moment as OTLP counts it: nanoseconds since the Unix epoch, which must not be
/// before it nor beyond 63 bits.
pub open spec fn event_nanos(moment: Moment) -> Option<u64> {
    let nanos = moment.secs * 1_000_000_000 + moment.nanos;
    if 0 <= nanos <= i64::MAX {
        Some(nanos as u64)
    } else {
        None
    }
}

/// The text of a cell that can hold an event time.
pub open spec fn time_text(cell: CellValue) -> Option<Seq<char>> {
    match cell {
        CellValue::Date(value) => Some(value@),
        CellValue::Timestamp(value) => Some(value@),
        CellValue::TimestampTz(value) => Some(value@),
        CellValue::String(value) => Some(value@),
        _ => None,
    }
}

/// The moment that an event-time text names: RFC 3339, or a date and time in UTC.
pub open spec fn event_moment(value: Seq<char>) -> Option<Moment> {
    match calendar::rfc3339_moment(value) {
        Some(moment) => Some(moment),
        None => calendar::naive_moment(value, NAIVE_TIME_FORMAT@),
    }
}

/// The event time of a cell, or why it has none.
pub open spec fn event_time(cell: CellValue, column: Seq<char>) -> Result<u64, MappingFailure> {
    match time_text(cell) {
        None => Err(MappingFailure::InvalidEventTimeType(column)),
        Some(value) => moment_time(event_moment(value), column),
    }
}

/// The event time of a moment that was read, or why there is none.
pub open spec fn moment_time(moment: Option<Moment>, column: Seq<char>) -> Result<
    u64,
    MappingFailure,
> {
    match moment {
        None => Err(MappingFailure::InvalidEventTime(column)),
        Some(moment) => match event_nanos(moment) {
            Some(nanos) => Ok(nanos),
            None => Err(MappingFailure::EventTimeOutOfRange(column)),
        },
    }
}

/// Counts a moment that was read in an event-time column.
pub fn moment_to_nanos(moment: Option<Moment>, column: &str) -> (r: Result<u64, OtlpMappingError>)
    ensures
        match r {
            Ok(nanos) => moment_time(moment, column@) == Ok::<u64, MappingFailure>(nanos),
            Err(error) => moment_time(moment, column@) == Err::<u64, MappingFailure>(error@),
        },
{
    match moment {
        None => Err(OtlpMappingError::InvalidEventTime { column: owned(column) }),
        Some(moment) => {
            let nanos: i128 = moment.secs as i128 * 1_000_000_000 + moment.nanos as i128;
            if 0 <= nanos && nanos <= i64::MAX as i128 {
                Ok(nanos as u64)
            } else {
                Err(OtlpMappingError::EventTimeOutOfRange { column: owned(column) })
            }
        },
    }
}

/// Reads the event time of a cell.
pub fn parse_event_time(value: &CellValue, column: &str) -> (r: Result<u64, OtlpMappingError>)
    ensures
        match r {
            Ok(nanos) => event_time(*value, column@) == Ok::<u64, MappingFailure>(nanos),
            Err(error) => event_time(*value, column@) == Err::<u64, MappingFailure>(error@),
        },
{
    let found = match value {
        CellValue::Date(value) => Some(value),
        CellValue::Timestamp(value) => Some(value),
        CellValue::TimestampTz(value) => Some(value),
        CellValue::String(value) => Some(value),
        _ => None,
    };
    match found {
        None => Err(OtlpMappingError::InvalidEventTimeType { column: owned(column) }),
        Some(value) => {
            let moment = match parse_rfc3339(value.as_str()) {
                Some(moment) => Some(moment),
                None => parse_naive(value.as_str(), NAIVE_TIME_FORMAT),
            };
            moment_to_nanos(moment, column)
        },
    }
}

/// Whether a column is part of the body.
pub open spec fn is_included(output: OutputConfig, column: Seq<char>) -> bool {
    output.include_columns@.len() == 0 || names_column(output.include_columns@, column)
}

/// Whether one of the names is that of a column, case aside.
pub open spec fn names_column(names: Seq<String>, column: Seq<char>) -> bool {
    exists|i: int|
        0 <= i < names.len() && text::same_ignoring_case((#[trigger] names[i])@, column)
}

/// The attribute that a column maps to: that of the first mapping whose name is the
/// column's, case aside.
pub open spec fn attribute_for(
    attributes: Seq<(Seq<char>, String)>,
    column: Seq<char>,
) -> Option<Seq<char>>
    decreases attributes.len(),
{
    if attributes.len() == 0 {
        None
    } else {
        match attribute_for(attributes.drop_last(), column) {
            Some(found) => Some(found),
            None => if text::same_ignoring_case(attributes.last().0, column) {
                Some(attributes.last().1@)
            } else {
                None
            },
        }
    }
}

/// Whether a column holds the event time.
pub open spec fn is_time_column(output: OutputConfig, column: Seq<char>) -> bool {
    output.timestamp is Some && text::same_ignoring_case(output.timestamp->0.column@, column)
}

/// What the columns of a row have put into its log so far.
pub struct RowLog {
    pub body: Seq<Pair>,
    pub attributes: Seq<Pair>,
    pub time: Option<u64>,
}

/// A log before any column: it already names its query.
pub open spec fn empty_log(query: Seq<char>) -> RowLog {
    RowLog {
        body: Seq::empty(),
        attributes: seq![Pair { key: QUERY_NAME_ATTRIBUTE@, value: Some(Any::Text(query)) }],
        time: None,
    }
}

/// The log with a column's cell in its body, when the column is included.
pub open spec fn with_body(
    log: RowLog,
    output: OutputConfig,
    column: Seq<char>,
    cell: CellValue,
) -> Result<RowLog, MappingFailure> {
    if is_included(output, column) {
        match body_any(cell) {
            Ok(value) => Ok(
                RowLog { body: log.body.push(Pair { key: column, value: Some(value) }), ..log },
            ),
            Err(failure) => Err(failure),
        }
    } else {
        Ok(log)
    }
}

/// The log with a column's cell as an attribute, when the column maps to one and the
/// cell is not NULL.
pub open spec fn with_attribute(
    log: RowLog,
    output: OutputConfig,
    column: Seq<char>,
    cell: CellValue,
) -> Result<RowLog, MappingFailure> {
    match attribute_for(output.attributes@, column) {
        Some(name) => if cell is Null {
            Ok(log)
        } else {
            match cell_any(cell) {
                Ok(value) => Ok(
                    RowLog { attributes: log.attributes.push(Pair { key: name, value: Some(value) }), ..log },
                ),
                Err(failure) => Err(failure),
            }
        },
        None => Ok(log),
    }
}

/// The log with a column's cell as its event time, when the column holds it and the
/// cell is not NULL.
pub open spec fn with_time(
    log: RowLog,
    output: OutputConfig,
    column: Seq<char>,
    cell: CellValue,
) -> Result<RowLog, MappingFailure> {
    if is_time_column(output, column) && !(cell is Null) {
        match event_time(cell, column) {
            Ok(nanos) => Ok(RowLog { time: Some(nanos), ..log }),
            Err(failure) => Err(failure),
        }
    } else {
        Ok(log)
    }
}

/// The log after one more column.
pub open spec fn with_column(
    log: RowLog,
    output: OutputConfig,
    column: Seq<char>,
    cell: CellValue,
) -> Result<RowLog, MappingFailure> {
    match with_body(log, output, column, cell) {
        Err(failure) => Err(failure),
        Ok(log) => match with_attribute(log, output, column, cell) {
            Err(failure) => Err(failure),
            Ok(log) => with_time(log, output, column, cell),
        },
    }
}

/// The log after the first `count` columns, or the first failure among them.
pub open spec fn log_of(
    values: Seq<CellValue>,
    columns: Seq<ColumnMetadata>,
    output: OutputConfig,
    query: Seq<char>,
    count: nat,
) -> Result<RowLog, MappingFailure>
    decreases count,
{
    if count == 0 {
        Ok(empty_log(query))
    } else {
        match log_of(values, columns, output, query, (count - 1) as nat) {
            Err(failure) => Err(failure),
            Ok(log) => with_column(log, output, columns[count - 1].name@, values[count - 1]),
        }
    }
}

/// How many columns of a result have a value in a row.
pub open spec fn paired(values: Seq<CellValue>, columns: Seq<ColumnMetadata>) -> nat {
    if values.len() <= columns.len() {
        values.len()
    } else {
        columns.len()
    }
}

/// Whether a record is a log: its body and attributes in order, its event time or
/// else the time of observation, and the fixed marks of a database row.
pub open spec fn records(record: LogRecord, log: RowLog, observed: u64) -> bool {
    &&& record.time_unix_nano == match log.time {
        Some(nanos) => nanos,
        None => observed,
    }
    &&& record.observed_time_unix_nano == observed
    &&& record.severity_number == SEVERITY_INFO
    &&& record.severity_text@ == "INFO"@
    &&& record.event_name@ == "database.query.row"@
    &&& record.body matches Some(body) && otlp::any(body) == Any::Pairs(log.body)
    &&& otlp::pairs(record.attributes@) == log.attributes
}

fn included(names: &Vec<String>, column: &str) -> (found: bool)
    ensures
        found == names_column(names@, column@),
{
    let mut i: usize = 0;
    while i < names.len()
        invariant
            i <= names@.len(),
            forall|j: int|
                0 <= j < i ==> !text::same_ignoring_case((#[trigger] names@[j])@, column@),
        decreases names.len() - i,
    {
        if same_but_case(names[i].as_str(), column) {
            assert(text::same_ignoring_case(names@[i as int]@, column@));
            return true;
        }
        i += 1;
    }
    false
}

fn find_attribute<'a>(attributes: &'a NameMap<String>, column: &str) -> (r: Option<&'a String>)
    ensures
        match r {
            Some(name) => attribute_for(attributes@, column@) == Some(name@),
            None => attribute_for(attributes@, column@) is None,
        },
{
    let mut i: usize = 0;
    while i < attributes.len()
        invariant
            i <= attributes@.len(),
            attribute_for(attributes@.take(i as int), column@) is None,
        decreases attributes@.len() - i,
    {
        let ghost next = attributes@.take(i + 1);
        assert(next.drop_last() =~= attributes@.take(i as int));
        assert(next.last() == attributes@[i as int]);
        if same_but_case(attributes.name(i).as_str(), column) {
            proof {
                lemma_attribute_first(attributes@, column@, (i + 1) as nat);
            }
            return Some(attributes.value(i));
        }
        i += 1;
    }
    assert(attributes@.take(attributes@.len() as int) =~= attributes@);
    None
}

proof fn lemma_attribute_first(
    attributes: Seq<(Seq<char>, String)>,
    column: Seq<char>,
    count: nat,
)
    requires
        count <= attributes.len(),
        attribute_for(attributes.take(count as int), column) is Some,
    ensures
        attribute_for(attributes, column) == attribute_for(attributes.take(count as int), column),
    decreases attributes.len(),
{
    if count == attributes.len() {
        assert(attributes.take(count as int) =~= attributes);
    } else {
        assert(attributes.drop_last().take(count as int) =~= attributes.take(count as int));
        lemma_attribute_first(attributes.drop_last(), column, count);
    }
}

/// Converts one row into a log.
pub fn row_to_log(row: &Row, columns: &Vec<ColumnMetadata>, mapping: &OtlpMapping<'_>) -> (r: Result<
    LogRecord,
    OtlpMappingError,
>)
    ensures
        ({
            let wanted = log_of(
                row.values@,
                columns@,
                *mapping.output,
                mapping.query_name@,
                paired(row.values@, columns@),
            );
            match r {
                Ok(record) => wanted is Ok && records(
                    record,
                    wanted->Ok_0,
                    mapping.observed_time_unix_nano,
                ),
                Err(error) => wanted == Err::<RowLog, MappingFailure>(error@),
            }
        }),
{
    let ghost output = *mapping.output;
    let ghost query = mapping.query_name@;
    let count: usize = if row.values.len() <= columns.len() {
        row.values.len()
    } else {
        columns.len()
    };
    let mut body: Vec<KeyValue> = Vec::new();
    let mut attributes: Vec<KeyValue> = Vec::new();
    attributes.push(key_value(owned(QUERY_NAME_ATTRIBUTE), text_value(owned(mapping.query_name))));
    let mut event_nanos: Option<u64> = None;
    assert(otlp::pairs(body@) =~= Seq::empty());
    assert(otlp::pairs(attributes@) =~= empty_log(query).attributes);
    let mut i: usize = 0;
    while i < count
        invariant
            i <= count,
            count == paired(row.values@, columns@),
            count <= row.values@.len(),
            count <= columns@.len(),
            output == *mapping.output,
            query == mapping.query_name@,
            log_of(row.values@, columns@, output, query, i as nat) == Ok::<RowLog, MappingFailure>(
                RowLog {
                    body: otlp::pairs(body@),
                    attributes: otlp::pairs(attributes@),
                    time: event_nanos,
                },
            ),
        decreases count - i,
    {
        let ghost before = RowLog {
            body: otlp::pairs(body@),
            attributes: otlp::pairs(attributes@),
            time: event_nanos,
        };
        let ghost step = with_column(before, output, columns@[i as int].name@, row.values@[i as int]);
        assert(log_of(row.values@, columns@, output, query, (i + 1) as nat) == step);
        proof {
            lemma_log_failure(row.values@, columns@, output, query, (i + 1) as nat, count as nat);
        }
        let column = columns[i].name.as_str();
        let cell = &row.values[i];
        if mapping.output.include_columns.len() == 0 || included(
            &mapping.output.include_columns,
            column,
        ) {
            match cell_to_body_any(cell) {
                Err(error) => {
                    return Err(error);
                },
                Ok(value) => {
                    let ghost earlier = body@;
                    let one = key_value(owned(column), value);
                    body.push(one);
                    assert(otlp::pairs(body@) =~= otlp::pairs(earlier).push(otlp::pair(one)));
                },
            }
        }
        if let Some(name) = find_attribute(&mapping.output.attributes, column) {
            let null = match cell {
                CellValue::Null => true,
                _ => false,
            };
            if !null {
                match cell_to_any(cell) {
                    Err(error) => {
                        return Err(error);
                    },
                    Ok(value) => {
                        let ghost earlier = attributes@;
                        let one = key_value(name.clone(), value);
                        attributes.push(one);
                        assert(otlp::pairs(attributes@) =~= otlp::pairs(earlier).push(
                            otlp::pair(one),
                        ));
                    },
                }
            }
        }
        if let Some(timestamp) = &mapping.output.timestamp {
            let null = match cell {
                CellValue::Null => true,
                _ => false,
            };
            if same_but_case(timestamp.column.as_str(), column) && !null {
                match parse_event_time(cell, column) {
                    Err(error) => {
                        return Err(error);
                    },
                    Ok(nanos) => {
                        event_nanos = Some(nanos);
                    },
                }
            }
        }
        i += 1;
    }
    let time_unix_nano: u64 = match event_nanos {
        Some(nanos) => nanos,
        None => mapping.observed_time_unix_nano,
    };
    Ok(
        LogRecord {
            time_unix_nano,
            observed_time_unix_nano: mapping.observed_time_unix_nano,
            severity_number: SEVERITY_INFO,
            severity_text: owned("INFO"),
            body: Some(pairs_value(body)),
            attributes,
            event_name: owned("database.query.row"),
        },
    )
}

/// A failure in an earlier column is the failure of the row.
proof fn lemma_log_failure(
    values: Seq<CellValue>,
    columns: Seq<ColumnMetadata>,
    output: OutputConfig,
    query: Seq<char>,
    count: nat,
    total: nat,
)
    requires
        count <= total,
    ensures
        log_of(values, columns, output, query, count) is Err ==> log_of(
            values,
            columns,
            output,
            query,
            total,
        ) == log_of(values, columns, output, query, count),
    decreases total,
{
    if count < total {
        lemma_log_failure(values, columns, output, query, count, (total - 1) as nat);
    }
}

/// Whether a result has a column of that name, case aside.
pub open spec fn has_column(columns: Seq<ColumnMetadata>, name: Seq<char>) -> bool {
    exists|i: int|
        0 <= i < columns.len() && text::same_ignoring_case((#[trigger] columns[i]).name@, name)
}

/// Every column name that an output mapping speaks of, in the order it is checked.
pub open spec fn mapped_names(output: OutputConfig) -> Seq<Seq<char>> {
    output.include_columns@.map_values(|name: String| name@) + output.attributes@.map_values(
        |entry: (Seq<char>, String)| entry.0,
    ) + match output.timestamp {
        Some(timestamp) => seq![timestamp.column@],
        None => Seq::empty(),
    }
}

/// The first of the names that is no column of a result.
pub open spec fn is_first_unknown(
    columns: Seq<ColumnMetadata>,
    names: Seq<Seq<char>>,
    at: int,
) -> bool {
    &&& 0 <= at < names.len()
    &&& !has_column(columns, names[at])
    &&& forall|i: int| 0 <= i < at ==> has_column(columns, #[trigger] names[i])
}

fn available(columns: &Vec<ColumnMetadata>, name: &str) -> (found: bool)
    ensures
        found == has_column(columns@, name@),
{
    let mut i: usize = 0;
    while i < columns.len()
        invariant
            i <= columns@.len(),
            forall|j: int|
                0 <= j < i ==> !text::same_ignoring_case((#[trigger] columns@[j]).name@, name@),
        decreases columns.len() - i,
    {
        if same_but_case(columns[i].name.as_str(), name) {
            assert(text::same_ignoring_case(columns@[i as int].name@, name@));
            return true;
        }
        i += 1;
    }
    false
}

/// Checks that every column an output mapping speaks of is in the result.
pub fn validate_mapping(columns: &Vec<ColumnMetadata>, output: &OutputConfig) -> (r: Result<
    (),
    OtlpMappingError,
>)
    ensures
        r is Ok <==> forall|i: int|
            0 <= i < mapped_names(*output).len() ==> has_column(
                columns@,
                #[trigger] mapped_names(*output)[i],
            ),
        r matches Err(error) ==> error matches OtlpMappingError::UnknownColumn { name } && exists|
            at: int,
        | #[trigger]
            is_first_unknown(columns@, mapped_names(*output), at) && name@ == mapped_names(
                *output,
            )[at],
{
    let ghost names = mapped_names(*output);
    let ghost first = output.include_columns@.len() as int;
    let ghost second = first + output.attributes@.len();
    let mut i: usize = 0;
    while i < output.include_columns.len()
        invariant
            i <= output.include_columns@.len(),
            names == mapped_names(*output),
            forall|j: int| 0 <= j < i ==> has_column(columns@, #[trigger] names[j]),
        decreases output.include_columns.len() - i,
    {
        assert(names[i as int] == output.include_columns@[i as int]@);
        if !available(columns, output.include_columns[i].as_str()) {
            assert(is_first_unknown(columns@, names, i as int));
            return Err(
                OtlpMappingError::UnknownColumn { name: output.include_columns[i].clone() },
            );
        }
        i += 1;
    }
    let mut k: usize = 0;
    while k < output.attributes.len()
        invariant
            k <= output.attributes@.len(),
            names == mapped_names(*output),
            first == output.include_columns@.len(),
            forall|j: int| 0 <= j < first + k ==> has_column(columns@, #[trigger] names[j]),
        decreases output.attributes@.len() - k,
    {
        assert(names[first + k] == output.attributes@[k as int].0);
        if !available(columns, output.attributes.name(k).as_str()) {
            assert(is_first_unknown(columns@, names, first + k));
            return Err(
                OtlpMappingError::UnknownColumn { name: output.attributes.name(k).clone() },
            );
        }
        k += 1;
    }
    if let Some(timestamp) = &output.timestamp {
        assert(names[second] == timestamp.column@);
        if !available(columns, timestamp.column.as_str()) {
            assert(is_first_unknown(columns@, names, second));
            return Err(OtlpMappingError::UnknownColumn { name: timestamp.column.clone() });
        }
    }
    Ok(())
}

/// The resource attributes of a batch: the database system, then what is configured.
pub open spec fn resource_pairs(
    system: DatabaseSystem,
    attributes: Seq<(Seq<char>, JsonValue)>,
) -> Result<Seq<Pair>, MappingFailure>
    decreases attributes.len(),
{
    if attributes.len() == 0 {
        Ok(
            seq![
                Pair {
                    key: "db.system.name"@,
                    value: Some(Any::Text(driver::system_name(system))),
                },
            ],
        )
    } else {
        match resource_pairs(system, attributes.drop_last()) {
            Err(failure) => Err(failure),
            Ok(earlier) => match scalar_any(attributes.last().1) {
                Ok(value) => Ok(earlier.push(Pair { key: attributes.last().0, value: Some(value) })),
                Err(failure) => Err(failure),
            },
        }
    }
}

fn resource_attributes(system: DatabaseSystem, attributes: &NameMap<JsonValue>) -> (r: Result<
    Vec<KeyValue>,
    OtlpMappingError,
>)
    ensures
        match r {
            Ok(list) => resource_pairs(system, attributes@) == Ok::<Seq<Pair>, MappingFailure>(
                otlp::pairs(list@),
            ),
            Err(error) => resource_pairs(system, attributes@) == Err::<Seq<Pair>, MappingFailure>(
                error@,
            ),
        },
{
    let mut list: Vec<KeyValue> = Vec::new();
    list.push(key_value(owned("db.system.name"), text_value(owned(system.as_str()))));
    assert(otlp::pairs(list@) =~= resource_pairs(system, Seq::empty())->Ok_0);
    assert(attributes@.take(0) =~= Seq::empty());
    let mut i: usize = 0;
    while i < attributes.len()
        invariant
            i <= attributes@.len(),
            resource_pairs(system, attributes@.take(i as int)) == Ok::<Seq<Pair>, MappingFailure>(
                otlp::pairs(list@),
            ),
        decreases attributes@.len() - i,
    {
        let ghost next = attributes@.take(i + 1);
        assert(next.drop_last() =~= attributes@.take(i as int));
        assert(next.last() == attributes@[i as int]);
        match json_scalar_to_any(attributes.value(i)) {
            Err(error) => {
                proof {
                    lemma_resource_failure(system, attributes@, (i + 1) as nat);
                }
                return Err(error);
            },
            Ok(value) => {
                let ghost earlier = list@;
                let one = key_value(attributes.name(i).clone(), value);
                list.push(one);
                assert(otlp::pairs(list@) =~= otlp::pairs(earlier).push(otlp::pair(one)));
            },
        }
        i += 1;
    }
    assert(attributes@.take(attributes@.len() as int) =~= attributes@);
    Ok(list)
}

proof fn lemma_resource_failure(
    system: DatabaseSystem,
    attributes: Seq<(Seq<char>, JsonValue)>,
    count: nat,
)
    requires
        count <= attributes.len(),
        resource_pairs(system, attributes.take(count as int)) is Err,
    ensures
        resource_pairs(system, attributes) == resource_pairs(system, attributes.take(count as int)),
    decreases attributes.len(),
{
    if count == attributes.len() {
        assert(attributes.take(count as int) =~= attributes);
    } else {
        assert(attributes.drop_last().take(count as int) =~= attributes.take(count as int));
        lemma_resource_failure(system, attributes.drop_last(), count);
    }
}

/// The log of one row of a batch.
pub open spec fn batch_log(
    rows: Seq<Row>,
    columns: Seq<ColumnMetadata>,
    output: OutputConfig,
    query: Seq<char>,
    at: int,
) -> Result<RowLog, MappingFailure> {
    log_of(rows[at].values@, columns, output, query, paired(rows[at].values@, columns))
}

/// Whether no row before `count` fails.
pub open spec fn maps_before(
    rows: Seq<Row>,
    columns: Seq<ColumnMetadata>,
    output: OutputConfig,
    query: Seq<char>,
    count: int,
) -> bool {
    forall|i: int| 0 <= i < count ==> (#[trigger] batch_log(rows, columns, output, query, i)) is Ok
}

/// Whether logs are those of a batch: one entity, one scope, one record per row in
/// the order of the rows.
pub open spec fn logs_batch(
    logs: LogsData,
    rows: Seq<Row>,
    columns: Seq<ColumnMetadata>,
    mapping: OtlpMapping<'_>,
) -> bool {
    &&& logs.resource_logs@.len() == 1
    &&& logs.resource_logs@[0].resource matches Some(resource) && resource_pairs(
        mapping.system,
        mapping.resource_attributes@,
    ) == Ok::<Seq<Pair>, MappingFailure>(otlp::pairs(resource.attributes@))
    &&& logs.resource_logs@[0].scope_logs@.len() == 1
    &&& logs.resource_logs@[0].scope_logs@[0].scope matches Some(scope) && scope.name@
        == DATABASE_SCOPE@ && scope.version@ == DATABASE_SCOPE_VERSION@
    &&& logs.resource_logs@[0].scope_logs@[0].log_records@.len() == rows.len()
    &&& maps_before(rows, columns, *mapping.output, mapping.query_name@, rows.len() as int)
    &&& forall|i: int|
        0 <= i < rows.len() ==> records(
            #[trigger] logs.resource_logs@[0].scope_logs@[0].log_records@[i],
            batch_log(rows, columns, *mapping.output, mapping.query_name@, i)->Ok_0,
            mapping.observed_time_unix_nano,
        )
}

/// Whether a failure is that of a batch: that of its first row that fails, or, when
/// none does, that of the resource attributes.
pub open spec fn fails_batch(
    failure: MappingFailure,
    rows: Seq<Row>,
    columns: Seq<ColumnMetadata>,
    mapping: OtlpMapping<'_>,
) -> bool {
    ||| exists|at: int|
        0 <= at < rows.len() && #[trigger] batch_log(
            rows,
            columns,
            *mapping.output,
            mapping.query_name@,
            at,
        ) == Err::<RowLog, MappingFailure>(failure) && maps_before(
            rows,
            columns,
            *mapping.output,
            mapping.query_name@,
            at,
        )
    ||| maps_before(rows, columns, *mapping.output, mapping.query_name@, rows.len() as int)
        && resource_pairs(mapping.system, mapping.resource_attributes@) == Err::<
        Seq<Pair>,
        MappingFailure,
    >(failure)
}

/// Converts one bounded row batch into logs.
pub fn rows_to_logs(batch: RowBatch, mapping: OtlpMapping<'_>) -> (r: Result<
    LogsData,
    OtlpMappingError,
>)
    ensures
        match r {
            Ok(logs) => logs_batch(logs, batch.rows@, batch.columns@, mapping),
            Err(error) => fails_batch(error@, batch.rows@, batch.columns@, mapping),
        },
{
    let ghost rows = batch.rows@;
    let ghost columns = batch.columns@;
    let ghost output = *mapping.output;
    let ghost query = mapping.query_name@;
    let mut log_records: Vec<LogRecord> = Vec::new();
    let mut i: usize = 0;
    while i < batch.rows.len()
        invariant
            i <= batch.rows@.len(),
            rows == batch.rows@,
            columns == batch.columns@,
            output == *mapping.output,
            query == mapping.query_name@,
            log_records@.len() == i,
            maps_before(rows, columns, output, query, i as int),
            forall|j: int|
                0 <= j < i ==> records(
                    #[trigger] log_records@[j],
                    batch_log(rows, columns, output, query, j)->Ok_0,
                    mapping.observed_time_unix_nano,
                ),
        decreases batch.rows.len() - i,
    {
        match row_to_log(&batch.rows[i], &batch.columns, &mapping) {
            Err(error) => {
                assert(batch_log(rows, columns, output, query, i as int) == Err::<
                    RowLog,
                    MappingFailure,
                >(error@));
                return Err(error);
            },
            Ok(record) => {
                assert(batch_log(rows, columns, output, query, i as int) is Ok);
                log_records.push(record);
            },
        }
        i += 1;
    }
    let attributes = match resource_attributes(mapping.system, mapping.resource_attributes) {
        Err(error) => {
            return Err(error);
        },
        Ok(attributes) => attributes,
    };
    let scope = InstrumentationScope {
        name: owned(DATABASE_SCOPE),
        version: owned(DATABASE_SCOPE_VERSION),
    };
    let mut scope_logs: Vec<ScopeLogs> = Vec::new();
    scope_logs.push(ScopeLogs { scope: Some(scope), log_records });
    let mut resource_logs: Vec<ResourceLogs> = Vec::new();
    resource_logs.push(ResourceLogs { resource: Some(Resource { attributes }), scope_logs });
    Ok(LogsData { resource_logs })
}

/// Checks the mapping against the result metadata, then converts the batch.
pub fn batch_to_logs(batch: RowBatch, mapping: OtlpMapping<'_>) -> (r: Result<
    LogsData,
    OtlpMappingError,
>)
    ensures
        ({
            let names = mapped_names(*mapping.output);
            let known = forall|i: int|
                0 <= i < names.len() ==> has_column(batch.columns@, #[trigger] names[i]);
            match r {
                Ok(logs) => known && logs_batch(logs, batch.rows@, batch.columns@, mapping),
                Err(error) => if known {
                    fails_batch(error@, batch.rows@, batch.columns@, mapping)
                } else {
                    exists|at: int| #[trigger]
                        is_first_unknown(batch.columns@, names, at) && error@
                            == MappingFailure::UnknownColumn(names[at])
                },
            }
        }),
{
    match validate_mapping(&batch.columns, mapping.output) {
        Err(error) => Err(error),
        Ok(()) => rows_to_logs(batch, mapping),
    }
}

/// Every log names its query before anything a row adds.
pub proof fn law_log_names_its_query(
    values: Seq<CellValue>,
    columns: Seq<ColumnMetadata>,
    output: OutputConfig,
    query: Seq<char>,
    count: nat,
)
    ensures
        log_of(values, columns, output, query, count) matches Ok(log) ==> log.attributes.len() >= 1
            && log.attributes[0] == (Pair {
            key: QUERY_NAME_ATTRIBUTE@,
            value: Some(Any::Text(query)),
        }),
    decreases count,
{
    if count > 0 {
        law_log_names_its_query(values, columns, output, query, (count - 1) as nat);
    }
}

/// A body holds exactly the included columns: all of them, under their own names and
/// in their own order, when no choice is configured.
pub proof fn law_body_keeps_every_column(
    values: Seq<CellValue>,
    columns: Seq<ColumnMetadata>,
    output: OutputConfig,
    query: Seq<char>,
    count: nat,
)
    requires
        output.include_columns@.len() == 0,
    ensures
        log_of(values, columns, output, query, count) matches Ok(log) ==> {
            &&& log.body.len() == count
            &&& forall|i: int|
                0 <= i < count ==> (#[trigger] log.body[i]).key == columns[i].name@
                    && log.body[i].value is Some && body_any(values[i]) == Ok::<
                    Any,
                    MappingFailure,
                >(log.body[i].value->0)
        },
    decreases count,
{
    if count > 0 {
        law_body_keeps_every_column(values, columns, output, query, (count - 1) as nat);
    }
}

/// Whether a configured list of names asks for a column: it is empty, or one of its names is
/// the column's but for case.
pub open spec fn asks_for(names: Seq<String>, column: Seq<char>) -> bool {
    names.len() == 0 || exists|k: int|
        0 <= k < names.len() && text::spells_alike((#[trigger] names[k])@, column)
}

/// Whether places go up.
pub open spec fn goes_up(places: Seq<int>) -> bool {
    forall|i: int, j: int| 0 <= i < j < places.len() ==> #[trigger] places[i] < #[trigger] places[j]
}

/// Whether a body holds exactly the columns that are asked for, in the order of the columns:
/// entry `i` is the column at `places[i]`, under the column's own name and with the value that
/// its cell maps to, every such column is asked for, and every column that is asked for is
/// among them.
pub open spec fn holds_chosen(
    body: Seq<Pair>,
    places: Seq<int>,
    values: Seq<CellValue>,
    columns: Seq<ColumnMetadata>,
    names: Seq<String>,
    count: int,
) -> bool {
    &&& places.len() == body.len()
    &&& goes_up(places)
    &&& forall|i: int|
        0 <= i < body.len() ==> 0 <= #[trigger] places[i] < count && asks_for(
            names,
            columns[places[i]].name@,
        ) && body[i].key == columns[places[i]].name@ && body[i].value is Some && body_any(
            values[places[i]],
        ) == Ok::<Any, MappingFailure>(body[i].value->0)
    &&& forall|c: int|
        0 <= c < count && asks_for(names, (#[trigger] columns[c]).name@) ==> places.contains(c)
}

/// The body of a mapped row holds exactly the columns that are asked for: with a list of
/// columns, those whose name is on it but for case, and without one all of them, each once and
/// in the order of the result.
pub proof fn law_body_holds_the_chosen_columns(
    values: Seq<CellValue>,
    columns: Seq<ColumnMetadata>,
    output: OutputConfig,
    query: Seq<char>,
    count: nat,
)
    ensures
        log_of(values, columns, output, query, count) matches Ok(log) ==> exists|places: Seq<int>|
            #[trigger]
            holds_chosen(log.body, places, values, columns, output.include_columns@, count as int),
    decreases count,
{
    if log_of(values, columns, output, query, count) is Ok {
        let log = log_of(values, columns, output, query, count)->Ok_0;
        let names = output.include_columns@;
        if count == 0 {
            assert(holds_chosen(log.body, Seq::empty(), values, columns, names, 0));
        } else {
            let less = (count - 1) as nat;
            law_body_holds_the_chosen_columns(values, columns, output, query, less);
            let before = log_of(values, columns, output, query, less)->Ok_0;
            let earlier = choose|places: Seq<int>| #[trigger]
                holds_chosen(before.body, places, values, columns, names, less as int);
            let column = columns[less as int].name@;
            lemma_asking(names, column);
            let places = if is_included(output, column) {
                earlier.push(less as int)
            } else {
                earlier
            };
            assert forall|i: int| 0 <= i < log.body.len() implies 0 <= #[trigger] places[i] < count
                && asks_for(names, columns[places[i]].name@) && log.body[i].key
                == columns[places[i]].name@ && log.body[i].value is Some && body_any(
                values[places[i]],
            ) == Ok::<Any, MappingFailure>(log.body[i].value->0) by {
                if i < before.body.len() {
                    assert(places[i] == earlier[i]);
                    assert(log.body[i] == before.body[i]);
                }
            }
            assert forall|c: int|
                0 <= c < count && asks_for(names, (#[trigger] columns[c]).name@) implies places.contains(
                c,
            ) by {
                if c < less {
                    assert(earlier.contains(c));
                    let at = choose|at: int| 0 <= at < earlier.len() && earlier[at] == c;
                    assert(places[at] == c);
                } else {
                    assert(places[places.len() - 1] == c);
                }
            }
            assert(goes_up(places)) by {
                assert forall|i: int, j: int| 0 <= i < j < places.len() implies #[trigger] places[i]
                    < #[trigger] places[j] by {
                    assert(places[i] == earlier[i]);
                    if j < earlier.len() {
                        assert(places[j] == earlier[j]);
                    }
                }
            }
            assert(holds_chosen(log.body, places, values, columns, names, count as int));
        }
    }
}

proof fn lemma_asking(names: Seq<String>, column: Seq<char>)
    ensures
        (names.len() == 0 || names_column(names, column)) == asks_for(names, column),
{
    if names_column(names, column) {
        let k = choose|k: int|
            0 <= k < names.len() && text::same_ignoring_case((#[trigger] names[k])@, column);
        text::law_case_is_all_that_is_ignored(names[k]@, column);
        assert(text::spells_alike(names[k]@, column));
    }
    if exists|k: int| 0 <= k < names.len() && text::spells_alike((#[trigger] names[k])@, column) {
        let k = choose|k: int|
            0 <= k < names.len() && text::spells_alike((#[trigger] names[k])@, column);
        text::law_case_is_all_that_is_ignored(names[k]@, column);
        assert(text::same_ignoring_case(names[k]@, column));
    }
}

/// Whether a text is the key of an entry.
pub open spec fn has_key(entries: Seq<Pair>, key: Seq<char>) -> bool {
    exists|i: int| 0 <= i < entries.len() && (#[trigger] entries[i]).key == key
}

/// Whether a text is the name of one of the first `count` columns.
pub open spec fn is_column(columns: Seq<ColumnMetadata>, count: int, name: Seq<char>) -> bool {
    exists|c: int| 0 <= c < count && (#[trigger] columns[c]).name@ == name
}

/// The keys of a mapped row's body, where columns are listed: every key is the name of a
/// column of the result and on the list but for case, and every column that is on the list but
/// for case is a key.
pub proof fn law_listed_columns_are_the_keys(
    values: Seq<CellValue>,
    columns: Seq<ColumnMetadata>,
    output: OutputConfig,
    query: Seq<char>,
    count: nat,
)
    requires
        output.include_columns@.len() > 0,
    ensures
        log_of(values, columns, output, query, count) matches Ok(log) ==> {
            &&& forall|i: int|
                0 <= i < log.body.len() ==> is_column(
                    columns,
                    count as int,
                    (#[trigger] log.body[i]).key,
                ) && exists|k: int|
                    0 <= k < output.include_columns@.len() && text::spells_alike(
                        (#[trigger] output.include_columns@[k])@,
                        log.body[i].key,
                    )
            &&& forall|c: int, k: int|
                0 <= c < count && 0 <= k < output.include_columns@.len() && text::spells_alike(
                    (#[trigger] output.include_columns@[k])@,
                    (#[trigger] columns[c]).name@,
                ) ==> has_key(log.body, columns[c].name@)
        },
{
    law_body_holds_the_chosen_columns(values, columns, output, query, count);
    if log_of(values, columns, output, query, count) is Ok {
        let log = log_of(values, columns, output, query, count)->Ok_0;
        let names = output.include_columns@;
        let places = choose|places: Seq<int>| #[trigger]
            holds_chosen(log.body, places, values, columns, names, count as int);
        assert forall|i: int| 0 <= i < log.body.len() implies is_column(
            columns,
            count as int,
            (#[trigger] log.body[i]).key,
        ) && exists|k: int|
            0 <= k < names.len() && text::spells_alike((#[trigger] names[k])@, log.body[i].key) by {
            let c = places[i];
            assert(log.body[i].key == columns[c].name@);
            assert(asks_for(names, columns[c].name@));
        }
        assert forall|c: int, k: int|
            0 <= c < count && 0 <= k < names.len() && text::spells_alike(
                (#[trigger] names[k])@,
                (#[trigger] columns[c]).name@,
            ) implies has_key(log.body, columns[c].name@) by {
            assert(asks_for(names, columns[c].name@));
            assert(places.contains(c));
            let i = choose|i: int| 0 <= i < places.len() && places[i] == c;
            assert(log.body[i].key == columns[c].name@);
        }
    }
}

/// The attribute that a column maps to is that of the first mapping under the column's name
/// but for case; a column maps to none exactly when no mapping is under its name.
pub proof fn law_attribute_is_of_the_first_mapping(
    attributes: Seq<(Seq<char>, String)>,
    column: Seq<char>,
)
    ensures
        attribute_for(attributes, column) is None <==> (forall|k: int|
            0 <= k < attributes.len() ==> !text::spells_alike(
                (#[trigger] attributes[k]).0,
                column,
            )),
        attribute_for(attributes, column) matches Some(name) ==> exists|k: int|
            0 <= k < attributes.len() && (#[trigger] attributes[k]).1@ == name
                && text::spells_alike(attributes[k].0, column) && (forall|j: int|
                0 <= j < k ==> !text::spells_alike((#[trigger] attributes[j]).0, column)),
    decreases attributes.len(),
{
    if attributes.len() > 0 {
        let rest = attributes.drop_last();
        let last = attributes.len() - 1;
        law_attribute_is_of_the_first_mapping(rest, column);
        text::law_case_is_all_that_is_ignored(attributes.last().0, column);
        if attribute_for(rest, column) is Some {
            let name = attribute_for(rest, column)->0;
            let k = choose|k: int|
                0 <= k < rest.len() && (#[trigger] rest[k]).1@ == name && text::spells_alike(
                    rest[k].0,
                    column,
                ) && (forall|j: int|
                    0 <= j < k ==> !text::spells_alike((#[trigger] rest[j]).0, column));
            assert(attributes[k] == rest[k]);
            assert forall|j: int| 0 <= j < k implies !text::spells_alike(
                (#[trigger] attributes[j]).0,
                column,
            ) by {
                assert(rest[j] == attributes[j]);
            }
        } else {
            assert forall|j: int| 0 <= j < last implies !text::spells_alike(
                (#[trigger] attributes[j]).0,
                column,
            ) by {
                assert(rest[j] == attributes[j]);
            }
            assert(attributes[last] == attributes.last());
        }
    }
}

/// Whether attributes are those of the columns at some places, in order: each under the name
/// that its column maps to, with the value of a cell that is not NULL, and no such column left
/// out.
pub open spec fn holds_mapped(
    attributes: Seq<Pair>,
    places: Seq<int>,
    values: Seq<CellValue>,
    columns: Seq<ColumnMetadata>,
    mappings: Seq<(Seq<char>, String)>,
    count: int,
) -> bool {
    &&& places.len() == attributes.len()
    &&& goes_up(places)
    &&& forall|i: int|
        0 <= i < attributes.len() ==> 0 <= #[trigger] places[i] < count && !(
        values[places[i]] is Null) && attribute_for(mappings, columns[places[i]].name@) == Some(
            attributes[i].key,
        ) && attributes[i].value is Some && cell_any(values[places[i]]) == Ok::<
            Any,
            MappingFailure,
        >(attributes[i].value->0)
    &&& forall|c: int|
        0 <= c < count && !(values[c] is Null) && attribute_for(
            mappings,
            (#[trigger] columns[c]).name@,
        ) is Some ==> places.contains(c)
}

/// After the query's name, the attributes of a mapped row are those of the columns that map to
/// one and are not NULL, all of them and in the order of the result.
pub proof fn law_attributes_are_of_the_mapped_columns(
    values: Seq<CellValue>,
    columns: Seq<ColumnMetadata>,
    output: OutputConfig,
    query: Seq<char>,
    count: nat,
)
    ensures
        log_of(values, columns, output, query, count) matches Ok(log) ==> log.attributes.len() >= 1
            && log.attributes[0].key == "receiver.database.query.name"@ && log.attributes[0].value
            == Some(Any::Text(query)) && exists|places: Seq<int>| #[trigger]
            holds_mapped(
                log.attributes.skip(1),
                places,
                values,
                columns,
                output.attributes@,
                count as int,
            ),
    decreases count,
{
    if log_of(values, columns, output, query, count) is Ok {
        let log = log_of(values, columns, output, query, count)->Ok_0;
        let mappings = output.attributes@;
        let rest = log.attributes.skip(1);
        if count == 0 {
            assert(holds_mapped(rest, Seq::empty(), values, columns, mappings, 0));
        } else {
            let less = (count - 1) as nat;
            law_attributes_are_of_the_mapped_columns(values, columns, output, query, less);
            let before = log_of(values, columns, output, query, less)->Ok_0;
            let old_rest = before.attributes.skip(1);
            let earlier = choose|places: Seq<int>| #[trigger]
                holds_mapped(old_rest, places, values, columns, mappings, less as int);
            let column = columns[less as int].name@;
            let added = attribute_for(mappings, column) is Some && !(values[less as int] is Null);
            let places = if added {
                earlier.push(less as int)
            } else {
                earlier
            };
            if added {
                assert(rest =~= old_rest.push(rest.last()));
            } else {
                assert(rest =~= old_rest);
            }
            assert forall|i: int| 0 <= i < rest.len() implies 0 <= #[trigger] places[i] < count && !(
            values[places[i]] is Null) && attribute_for(mappings, columns[places[i]].name@)
                == Some(rest[i].key) && rest[i].value is Some && cell_any(values[places[i]])
                == Ok::<Any, MappingFailure>(rest[i].value->0) by {
                if i < old_rest.len() {
                    assert(places[i] == earlier[i]);
                    assert(rest[i] == old_rest[i]);
                }
            }
            assert forall|c: int|
                0 <= c < count && !(values[c] is Null) && attribute_for(
                    mappings,
                    (#[trigger] columns[c]).name@,
                ) is Some implies places.contains(c) by {
                if c < less {
                    assert(earlier.contains(c));
                    let at = choose|at: int| 0 <= at < earlier.len() && earlier[at] == c;
                    assert(places[at] == c);
                } else {
                    assert(places[places.len() - 1] == c);
                }
            }
            assert(goes_up(places)) by {
                assert forall|i: int, j: int| 0 <= i < j < places.len() implies #[trigger] places[i]
                    < #[trigger] places[j] by {
                    assert(places[i] == earlier[i]);
                    if j < earlier.len() {
                        assert(places[j] == earlier[j]);
                    }
                }
            }
            assert(holds_mapped(rest, places, values, columns, mappings, count as int));
        }
    }
}

/// Whether a column is configured to hold the event time, and its cell is not NULL.
pub open spec fn tells_time(output: OutputConfig, column: Seq<char>, cell: CellValue) -> bool {
    output.timestamp matches Some(timestamp) && text::spells_alike(timestamp.column@, column) && !(
    cell is Null)
}

/// The time of a mapped row is that of its last cell in the configured column that is not
/// NULL; a row without one has none of its own.
pub proof fn law_event_time_is_of_its_column(
    values: Seq<CellValue>,
    columns: Seq<ColumnMetadata>,
    output: OutputConfig,
    query: Seq<char>,
    count: nat,
)
    ensures
        log_of(values, columns, output, query, count) matches Ok(log) ==> match log.time {
            None => forall|c: int|
                0 <= c < count ==> !tells_time(output, (#[trigger] columns[c]).name@, values[c]),
            Some(nanos) => exists|c: int|
                0 <= c < count && tells_time(output, (#[trigger] columns[c]).name@, values[c])
                    && event_time(values[c], columns[c].name@) == Ok::<u64, MappingFailure>(nanos)
                    && (forall|d: int|
                    c < d < count ==> !tells_time(
                        output,
                        (#[trigger] columns[d]).name@,
                        values[d],
                    )),
        },
    decreases count,
{
    if log_of(values, columns, output, query, count) is Ok && count > 0 {
        let less = (count - 1) as nat;
        law_event_time_is_of_its_column(values, columns, output, query, less);
        let column = columns[less as int].name@;
        if output.timestamp is Some {
            text::law_case_is_all_that_is_ignored(output.timestamp->0.column@, column);
        }
        let before = log_of(values, columns, output, query, less)->Ok_0;
        let log = log_of(values, columns, output, query, count)->Ok_0;
        if tells_time(output, column, values[less as int]) {
            assert(log.time is Some);
            assert(tells_time(output, columns[less as int].name@, values[less as int]));
        } else {
            assert(log.time == before.time);
            if before.time is Some {
                let nanos = before.time->0;
                let c = choose|c: int|
                    0 <= c < less && tells_time(output, (#[trigger] columns[c]).name@, values[c])
                        && event_time(values[c], columns[c].name@) == Ok::<u64, MappingFailure>(
                        nanos,
                    ) && (forall|d: int|
                        c < d < less ==> !tells_time(
                            output,
                            (#[trigger] columns[d]).name@,
                            values[d],
                        ));
                assert(tells_time(output, columns[c].name@, values[c]));
            }
        }
    }
}

/// An event time is counted in whole nanoseconds from the Unix epoch: the seconds of the
/// moment and the nanoseconds beyond them. It is there exactly when it is not before the epoch
/// and fits 63 bits.
pub proof fn law_event_time_counts_from_the_epoch(moment: Moment)
    ensures
        event_nanos(moment) matches Some(nanos) ==> nanos as int - moment.nanos
            == moment.secs as int * 1_000_000_000,
        event_nanos(moment) is Some <==> 0 <= moment.secs as int * 1_000_000_000 + moment.nanos
            < 0x8000_0000_0000_0000,
{
}

/// Only dates, timestamps and texts tell a time, and they tell it by their own text.
pub proof fn law_times_are_told_by_texts(cell: CellValue, column: Seq<char>)
    ensures
        match cell {
            CellValue::Date(s) => time_text(cell) == Some(s@),
            CellValue::Timestamp(s) => time_text(cell) == Some(s@),
            CellValue::TimestampTz(s) => time_text(cell) == Some(s@),
            CellValue::String(s) => time_text(cell) == Some(s@),
            _ => event_time(cell, column) == Err::<u64, MappingFailure>(
                MappingFailure::InvalidEventTimeType(column),
            ),
        },
        time_text(cell) matches Some(value) ==> {
            &&& calendar::rfc3339_moment(value) is None && calendar::naive_moment(
                value,
                "%Y-%m-%d %H:%M:%S%.f"@,
            ) is None ==> event_time(cell, column) == Err::<u64, MappingFailure>(
                MappingFailure::InvalidEventTime(column),
            )
            &&& calendar::rfc3339_moment(value) matches Some(moment) ==> event_time(cell, column)
                == match event_nanos(moment) {
                Some(nanos) => Ok::<u64, MappingFailure>(nanos),
                None => Err(MappingFailure::EventTimeOutOfRange(column)),
            }
            &&& calendar::rfc3339_moment(value) is None ==> (calendar::naive_moment(
                value,
                "%Y-%m-%d %H:%M:%S%.f"@,
            ) matches Some(moment) ==> event_time(cell, column) == match event_nanos(moment) {
                Some(nanos) => Ok::<u64, MappingFailure>(nanos),
                None => Err(MappingFailure::EventTimeOutOfRange(column)),
            })
        },
{
}

/// Whether a value stands for a natural number: an integer that is it, or, where it does not
/// fit a signed integer, its decimal digits.
pub open spec fn stands_for(value: Any, n: int) -> bool {
    match value {
        Any::Int(m) => m as int == n,
        Any::Text(digits) => n > 0x7fff_ffff_ffff_ffff && text::all_digits(digits)
            && text::value_of(digits) == n && digits.len() > 0 && digits[0] != '0',
        _ => false,
    }
}

/// A natural number is never changed on its way out.
pub proof fn law_natural_numbers_are_kept(value: u64)
    ensures
        stands_for(natural_any(value), value as int),
{
    text::law_decimal_stands_for_its_number(value as nat);
}

/// A cell maps to the very value that it holds: nothing, a boolean, an integer or a finite
/// double as itself, and every textual form as its text. Only a double that is no number has
/// no value.
pub proof fn law_cells_map_to_their_values(cell: CellValue)
    ensures
        match cell {
            CellValue::Null => cell_any(cell) == Ok::<Any, MappingFailure>(Any::Empty),
            CellValue::Bool(b) => cell_any(cell) matches Ok(Any::Bool(c)) && b == c,
            CellValue::Int64(n) => cell_any(cell) matches Ok(Any::Int(m)) && n as int == m as int,
            CellValue::UInt64(n) => cell_any(cell) matches Ok(value) && stands_for(value, n as int),
            CellValue::Float64(d) => match cell_any(cell) {
                Ok(Any::Double(e)) => d.bits == e.bits && double::finite(d.bits),
                Err(failure) => failure is NonFiniteFloat && !double::finite(d.bits),
                _ => false,
            },
            CellValue::Bytes(b) => cell_any(cell) matches Ok(Any::Text(t)) && t == base64_text(b@),
            CellValue::Decimal(s) => cell_any(cell) matches Ok(Any::Text(t)) && t == s@,
            CellValue::String(s) => cell_any(cell) matches Ok(Any::Text(t)) && t == s@,
            CellValue::Date(s) => cell_any(cell) matches Ok(Any::Text(t)) && t == s@,
            CellValue::Timestamp(s) => cell_any(cell) matches Ok(Any::Text(t)) && t == s@,
            CellValue::TimestampTz(s) => cell_any(cell) matches Ok(Any::Text(t)) && t == s@,
            CellValue::Interval(s) => cell_any(cell) matches Ok(Any::Text(t)) && t == s@,
            CellValue::Json(s) => cell_any(cell) matches Ok(Any::Text(t)) && t == s@,
            CellValue::Uuid(s) => cell_any(cell) matches Ok(Any::Text(t)) && t == s@,
        },
        !(cell is Json) ==> body_any(cell) == cell_any(cell),
{
    match cell {
        CellValue::UInt64(n) => law_natural_numbers_are_kept(n),
        _ => {},
    }
}

/// Whether a value is a JSON tree's: the same scalar, or as many parts in the same order,
/// each the value of its own part and under its own name.
pub open spec fn mirrors(value: Any, tree: JsonTree) -> bool
    decreases tree,
{
    match (tree, value) {
        (JsonTree::Null, Any::Empty) => true,
        (JsonTree::Bool(b), Any::Bool(c)) => b == c,
        (JsonTree::Text(s), Any::Text(t)) => s == t,
        (JsonTree::Number(JsonNumber::Natural(n)), _) => stands_for(value, n as int),
        (JsonTree::Number(JsonNumber::Negative(n)), Any::Int(m)) => n as int == m as int,
        (JsonTree::Number(JsonNumber::Double(d)), Any::Double(e)) => d.bits == e.bits,
        (JsonTree::Items(items), Any::Array(parts)) => parts.len() == items.len() && forall|i: int|
            0 <= i < items.len() ==> mirrors(#[trigger] parts[i], items[i]),
        (JsonTree::Members(members), Any::Pairs(parts)) => parts.len() == members.len() && forall|
            i: int,
        |
            0 <= i < members.len() ==> (#[trigger] parts[i]).key == members[i].name
                && parts[i].value is Some && mirrors(parts[i].value->0, members[i].value),
        _ => false,
    }
}

/// A JSON tree maps to a value of the same structure, with every scalar in its place.
pub proof fn law_json_keeps_its_structure(tree: JsonTree)
    ensures
        mirrors(json_any(tree), tree),
    decreases tree,
{
    match tree {
        JsonTree::Number(JsonNumber::Natural(n)) => law_natural_numbers_are_kept(n),
        JsonTree::Items(items) => {
            let parts = json_any(tree)->Array_0;
            assert forall|i: int| 0 <= i < items.len() implies mirrors(
                #[trigger] parts[i],
                items[i],
            ) by {
                law_json_keeps_its_structure(items[i]);
            }
        },
        JsonTree::Members(members) => {
            let parts = json_any(tree)->Pairs_0;
            assert forall|i: int| 0 <= i < members.len() implies (#[trigger] parts[i]).key
                == members[i].name && parts[i].value is Some && mirrors(
                parts[i].value->0,
                members[i].value,
            ) by {
                law_json_keeps_its_structure(members[i].value);
            }
        },
        _ => {},
    }
}

/// The resource of a batch names the database system and then carries every configured
/// attribute, in order, under its own name and with its own value.
pub proof fn law_resource_carries_every_attribute(
    system: DatabaseSystem,
    attributes: Seq<(Seq<char>, JsonValue)>,
)
    ensures
        match resource_pairs(system, attributes) {
            Ok(list) => {
                &&& list.len() == attributes.len() + 1
                &&& list[0].key == "db.system.name"@
                &&& list[0].value == Some(Any::Text(driver::system_name(system)))
                &&& forall|i: int|
                    #![trigger attributes[i]]
                    0 <= i < attributes.len() ==> list[i + 1].key == attributes[i].0 && match (
                        attributes[i].1,
                        list[i + 1].value,
                    ) {
                        (JsonValue::Bool(b), Some(Any::Bool(c))) => b == c,
                        (JsonValue::String(s), Some(Any::Text(t))) => s@ == t,
                        (
                            JsonValue::Number(JsonNumber::Natural(n)),
                            Some(value),
                        ) => stands_for(value, n as int),
                        (
                            JsonValue::Number(JsonNumber::Negative(n)),
                            Some(Any::Int(m)),
                        ) => n as int == m as int,
                        (
                            JsonValue::Number(JsonNumber::Double(d)),
                            Some(Any::Double(e)),
                        ) => d.bits == e.bits && double::finite(d.bits),
                        _ => false,
                    }
            },
            Err(failure) => failure is InvalidResourceAttribute && exists|i: int|
                0 <= i < attributes.len() && match (#[trigger] attributes[i]).1 {
                    JsonValue::Null | JsonValue::Array(_) | JsonValue::Object(_) => true,
                    JsonValue::Number(JsonNumber::Double(d)) => !double::finite(d.bits),
                    _ => false,
                },
        },
    decreases attributes.len(),
{
    if attributes.len() > 0 {
        let rest = attributes.drop_last();
        let last = attributes.len() - 1;
        law_resource_carries_every_attribute(system, rest);
        assert forall|i: int| 0 <= i < last implies rest[i] == #[trigger] attributes[i] by {}
        assert(attributes[last] == attributes.last());
        match attributes.last().1 {
            JsonValue::Number(JsonNumber::Natural(n)) => law_natural_numbers_are_kept(n),
            _ => {},
        }
        if resource_pairs(system, attributes) is Ok {
            let list = resource_pairs(system, attributes)->Ok_0;
            let earlier = resource_pairs(system, rest)->Ok_0;
            assert(list.drop_last() =~= earlier);
            assert forall|i: int| 0 <= i < last implies list[i + 1] == #[trigger] earlier[i + 1] by {}
        } else if resource_pairs(system, rest) is Err {
            let i = choose|i: int|
                0 <= i < rest.len() && match (#[trigger] rest[i]).1 {
                    JsonValue::Null | JsonValue::Array(_) | JsonValue::Object(_) => true,
                    JsonValue::Number(JsonNumber::Double(d)) => !double::finite(d.bits),
                    _ => false,
                };
            assert(attributes[i] == rest[i]);
        }
    }
}

/// What a character stands for in standard base64: its place in the alphabet of capitals, small
/// letters, digits, `+` and `/`. Any other character stands for nothing that six bits hold.
pub open spec fn base64_value(c: char) -> int {
    if 'A' <= c <= 'Z' {
        c as int - 'A' as int
    } else if 'a' <= c <= 'z' {
        26 + c as int - 'a' as int
    } else if '0' <= c <= '9' {
        52 + c as int - '0' as int
    } else if c == '+' {
        62
    } else if c == '/' {
        63
    } else {
        64
    }
}

proof fn lemma_base64_digit(sextet: int)
    requires
        0 <= sextet < 64,
    ensures
        base64_value(base64_digit(sextet)) == sextet,
{
}

/// Every three bytes make four characters, and what is left over makes four more.
pub proof fn law_base64_is_padded(bytes: Seq<u8>)
    ensures
        base64_text(bytes).len() * 3 == if bytes.len() % 3 == 0 {
            bytes.len() * 4
        } else {
            (bytes.len() / 3 + 1) * 12
        },
    decreases bytes.len(),
{
    if bytes.len() >= 3 {
        law_base64_is_padded(bytes.skip(3));
    }
}

/// Whether four characters of a text stand for the very bits of the bytes from a place on: three
/// bytes where as many are left, and otherwise two or one, the rest of the bits being zero and
/// the rest of the characters `=`.
pub open spec fn stands_for_group(t: Seq<char>, at: int, bytes: Seq<u8>, from: int) -> bool {
    let a = base64_value(t[at]);
    let b = base64_value(t[at + 1]);
    let c = base64_value(t[at + 2]);
    let d = base64_value(t[at + 3]);
    let first = bytes[from] as int;
    let second = bytes[from + 1] as int;
    let third = bytes[from + 2] as int;
    &&& at + 4 <= t.len()
    &&& 0 <= a < 64 && 0 <= b < 64
    &&& if bytes.len() >= from + 3 {
        &&& 0 <= c < 64 && 0 <= d < 64
        &&& a * 262144 + b * 4096 + c * 64 + d == first * 65536 + second * 256 + third
    } else if bytes.len() == from + 2 {
        &&& 0 <= c < 64
        &&& a * 4096 + b * 64 + c == first * 1024 + second * 4
        &&& t[at + 3] == '='
    } else {
        &&& a * 64 + b == first * 16
        &&& t[at + 2] == '='
        &&& t[at + 3] == '='
    }
}

proof fn lemma_first_group(bytes: Seq<u8>)
    requires
        bytes.len() > 0,
    ensures
        stands_for_group(base64_text(bytes), 0, bytes, 0),
{
    let t = base64_text(bytes);
    let x = bytes[0] as int;
    let y = bytes[1] as int;
    let z = bytes[2] as int;
    lemma_base64_digit(x / 4);
    if bytes.len() == 1 {
        lemma_base64_digit(x % 4 * 16);
        assert(t[0] == base64_digit(x / 4) && t[1] == base64_digit(x % 4 * 16));
        assert(x / 4 * 64 + x % 4 * 16 == x * 16);
    } else if bytes.len() == 2 {
        lemma_base64_digit(x % 4 * 16 + y / 16);
        lemma_base64_digit(y % 16 * 4);
        assert(t[0] == base64_digit(x / 4) && t[1] == base64_digit(x % 4 * 16 + y / 16) && t[2]
            == base64_digit(y % 16 * 4));
        assert(x / 4 * 4096 + (x % 4 * 16 + y / 16) * 64 + y % 16 * 4 == x * 1024 + y * 4);
    } else {
        lemma_base64_digit(x % 4 * 16 + y / 16);
        lemma_base64_digit(y % 16 * 4 + z / 64);
        lemma_base64_digit(z % 64);
        assert(t[0] == base64_digit(x / 4) && t[1] == base64_digit(x % 4 * 16 + y / 16) && t[2]
            == base64_digit(y % 16 * 4 + z / 64) && t[3] == base64_digit(z % 64));
        assert(x / 4 * 262144 + (x % 4 * 16 + y / 16) * 4096 + (y % 16 * 4 + z / 64) * 64 + z % 64
            == x * 65536 + y * 256 + z);
    }
}

/// The four characters of each group stand for the very bits of the group's bytes.
pub proof fn law_base64_stands_for_its_bytes(bytes: Seq<u8>, group: int)
    requires
        0 <= group,
        3 * group < bytes.len(),
    ensures
        stands_for_group(base64_text(bytes), 4 * group, bytes, 3 * group),
    decreases group,
{
    if group == 0 {
        lemma_first_group(bytes);
    } else {
        let t = base64_text(bytes);
        let rest = bytes.skip(3);
        let u = base64_text(rest);
        law_base64_stands_for_its_bytes(rest, group - 1);
        assert(t[4 * group] == u[4 * (group - 1)]);
        assert(t[4 * group + 1] == u[4 * (group - 1) + 1]);
        assert(t[4 * group + 2] == u[4 * (group - 1) + 2]);
        assert(t[4 * group + 3] == u[4 * (group - 1) + 3]);
        assert(rest[3 * (group - 1)] == bytes[3 * group]);
        if rest.len() > 3 * (group - 1) + 1 {
            assert(rest[3 * (group - 1) + 1] == bytes[3 * group + 1]);
        }
        if rest.len() > 3 * (group - 1) + 2 {
            assert(rest[3 * (group - 1) + 2] == bytes[3 * group + 2]);
        }
    }
}

/// The part of a JSON tree at the end of a path of places.
pub open spec fn part(tree: JsonTree, path: Seq<int>) -> JsonTree
    decreases path.len(),
{
    if path.len() == 0 {
        tree
    } else {
        match tree {
            JsonTree::Items(items) => if 0 <= path[0] < items.len() {
                part(items[path[0]], path.drop_first())
            } else {
                JsonTree::Null
            },
            JsonTree::Members(members) => if 0 <= path[0] < members.len() {
                part(members[path[0]].value, path.drop_first())
            } else {
                JsonTree::Null
            },
            _ => JsonTree::Null,
        }
    }
}

/// A JSON tree that is accepted holds nowhere, however deep, a double that is no number.
pub proof fn law_accepted_json_is_finite(tree: JsonTree, path: Seq<int>)
    requires
        json_result(tree) is Ok,
    ensures
        part(tree, path) matches JsonTree::Number(JsonNumber::Double(d)) ==> double::finite(d.bits),
    decreases path.len(),
{
    if path.len() > 0 {
        match tree {
            JsonTree::Items(items) => if 0 <= path[0] < items.len() {
                law_accepted_json_is_finite(items[path[0]], path.drop_first());
            },
            JsonTree::Members(members) => if 0 <= path[0] < members.len() {
                law_accepted_json_is_finite(members[path[0]].value, path.drop_first());
            },
            _ => {},
        }
    }
}

/// A JSON tree is refused only for a double that is no number somewhere in it, and refused as
/// that.
pub proof fn law_refused_json_is_not_finite(tree: JsonTree) -> (path: Seq<int>)
    requires
        json_result(tree) is Err,
    ensures
        part(tree, path) matches JsonTree::Number(JsonNumber::Double(d)) && !double::finite(d.bits),
        json_result(tree)->Err_0 is NonFiniteFloat,
    decreases tree,
{
    match tree {
        JsonTree::Items(items) => {
            let i = choose|i: int| 0 <= i < items.len() && !representable(#[trigger] items[i]);
            let rest = law_refused_json_is_not_finite(items[i]);
            assert((seq![i] + rest).drop_first() =~= rest);
            seq![i] + rest
        },
        JsonTree::Members(members) => {
            let i = choose|i: int|
                0 <= i < members.len() && !representable((#[trigger] members[i]).value);
            let rest = law_refused_json_is_not_finite(members[i].value);
            assert((seq![i] + rest).drop_first() =~= rest);
            seq![i] + rest
        },
        _ => Seq::empty(),
    }
}

/// A configured scalar is carried as it is: a boolean, a text or a number that OTLP can hold.
/// Nothing else is a scalar.
pub proof fn law_scalars_are_carried(value: JsonValue)
    ensures
        match value {
            JsonValue::Bool(b) => scalar_any(value) matches Ok(Any::Bool(c)) && b == c,
            JsonValue::String(s) => scalar_any(value) matches Ok(Any::Text(t)) && s@ == t,
            JsonValue::Number(JsonNumber::Natural(n)) => scalar_any(value) matches Ok(any)
                && stands_for(any, n as int),
            JsonValue::Number(JsonNumber::Negative(n)) => scalar_any(value) matches Ok(Any::Int(m))
                && n as int == m as int,
            JsonValue::Number(JsonNumber::Double(d)) => match scalar_any(value) {
                Ok(Any::Double(e)) => d.bits == e.bits && double::finite(d.bits),
                Err(failure) => failure is InvalidResourceAttribute && !double::finite(d.bits),
                _ => false,
            },
            _ => scalar_any(value) matches Err(failure) && failure is InvalidResourceAttribute,
        },
{
    match value {
        JsonValue::Number(JsonNumber::Natural(n)) => law_natural_numbers_are_kept(n),
        _ => {},
    }
}

/// What was read in a JSON column is what its body holds; where nothing could be read, that is
/// the failure.
pub proof fn law_json_columns_keep_their_structure(parsed: Option<JsonTree>)
    ensures
        parsed is None ==> parsed_any(parsed) is Err && parsed_any(parsed)->Err_0 is Json,
        parsed matches Some(tree) ==> (parsed_any(parsed) matches Ok(value) ==> mirrors(value, tree)),
        parsed matches Some(tree) ==> (parsed_any(parsed) matches Err(failure) ==> failure
            is NonFiniteFloat),
        parsed matches Some(tree) ==> (parsed_any(parsed) is Ok <==> representable(tree)),
{
    if parsed is Some {
        law_json_keeps_its_structure(parsed->0);
    }
}

/// A column is found under a name exactly when it spells that name, case aside.
pub proof fn law_columns_are_found_whatever_their_case(
    columns: Seq<ColumnMetadata>,
    name: Seq<char>,
)
    ensures
        has_column(columns, name) <==> exists|i: int|
            0 <= i < columns.len() && text::spells_alike((#[trigger] columns[i]).name@, name),
{
    assert forall|i: int| 0 <= i < columns.len() implies (text::same_ignoring_case(
        (#[trigger] columns[i]).name@,
        name,
    ) <==> text::spells_alike(columns[i].name@, name)) by {
        text::law_case_is_all_that_is_ignored(columns[i].name@, name);
    }
    if has_column(columns, name) {
        let i = choose|i: int|
            0 <= i < columns.len() && text::same_ignoring_case((#[trigger] columns[i]).name@, name);
        assert(text::spells_alike(columns[i].name@, name));
    }
    if exists|i: int|
        0 <= i < columns.len() && text::spells_alike((#[trigger] columns[i]).name@, name) {
        let i = choose|i: int|
            0 <= i < columns.len() && text::spells_alike((#[trigger] columns[i]).name@, name);
        assert(text::same_ignoring_case(columns[i].name@, name));
    }
}

/// Every column that an output mapping speaks of is checked, and no other: those to include,
/// those that map to attributes, and the one of the event time.
pub proof fn law_every_named_column_is_checked(output: OutputConfig, name: Seq<char>)
    ensures
        mapped_names(output).contains(name) <==> (exists|i: int|
            0 <= i < output.include_columns@.len() && (#[trigger] output.include_columns@[i])@
                == name) || (exists|i: int|
            0 <= i < output.attributes@.len() && (#[trigger] output.attributes@[i]).0 == name) || (
        output.timestamp matches Some(timestamp) && timestamp.column@ == name),
{
    let listed = output.include_columns@.map_values(|name: String| name@);
    let keyed = output.attributes@.map_values(|entry: (Seq<char>, String)| entry.0);
    let all = mapped_names(output);
    let a = listed.len() as int;
    let b = keyed.len() as int;
    if all.contains(name) {
        let i = choose|i: int| 0 <= i < all.len() && all[i] == name;
        if i < a {
            assert(listed[i] == output.include_columns@[i]@);
        } else if i < a + b {
            assert(keyed[i - a] == output.attributes@[i - a].0);
        }
    }
    if exists|i: int|
        0 <= i < output.include_columns@.len() && (#[trigger] output.include_columns@[i])@ == name {
        let i = choose|i: int|
            0 <= i < output.include_columns@.len() && (#[trigger] output.include_columns@[i])@
                == name;
        assert(all[i] == name);
    }
    if exists|i: int|
        0 <= i < output.attributes@.len() && (#[trigger] output.attributes@[i]).0 == name {
        let i = choose|i: int|
            0 <= i < output.attributes@.len() && (#[trigger] output.attributes@[i]).0 == name;
        assert(all[a + i] == name);
    }
    if output.timestamp is Some && output.timestamp->0.column@ == name {
        assert(all[a + b] == name);
    }
}

/// A record tells the time of its event, or, where the row tells none, that of its observation;
/// it is of ordinary severity and holds what the row's log holds.
pub proof fn law_records_tell_their_event(record: LogRecord, log: RowLog, observed: u64)
    requires
        records(record, log, observed),
    ensures
        log.time matches Some(nanos) ==> record.time_unix_nano == nanos,
        log.time is None ==> record.time_unix_nano == record.observed_time_unix_nano,
        record.observed_time_unix_nano == observed,
        record.severity_number == 9,
        record.severity_text@ == seq!['I', 'N', 'F', 'O'],
        record.body matches Some(body) && otlp::any(body) matches Any::Pairs(held) && held
            == log.body,
        otlp::pairs(record.attributes@) == log.attributes,
{
    reveal_strlit("INFO");
}

/// A batch of rows becomes one record per row, in the order of the rows: the record at a place
/// tells what the row at that place holds.
pub proof fn law_batches_keep_their_order(
    logs: LogsData,
    rows: Seq<Row>,
    columns: Seq<ColumnMetadata>,
    mapping: OtlpMapping<'_>,
    i: int,
)
    requires
        logs_batch(logs, rows, columns, mapping),
        0 <= i < rows.len(),
        rows[i].values@.len() == columns.len(),
    ensures
        logs.resource_logs@.len() == 1,
        logs.resource_logs@[0].scope_logs@.len() == 1,
        logs.resource_logs@[0].scope_logs@[0].log_records@.len() == rows.len(),
        log_of(
            rows[i].values@,
            columns,
            *mapping.output,
            mapping.query_name@,
            columns.len(),
        ) matches Ok(log) && records(
            logs.resource_logs@[0].scope_logs@[0].log_records@[i],
            log,
            mapping.observed_time_unix_nano,
        ),
{
    assert(batch_log(rows, columns, *mapping.output, mapping.query_name@, i) is Ok);
}

/// A batch that cannot be mapped fails for one reason: that of its first row that fails, or,
/// where every row maps, that of the resource attributes. One that fails has no logs.
pub proof fn law_batches_fail_for_one_reason(
    failure: MappingFailure,
    other: MappingFailure,
    logs: LogsData,
    rows: Seq<Row>,
    columns: Seq<ColumnMetadata>,
    mapping: OtlpMapping<'_>,
)
    requires
        fails_batch(failure, rows, columns, mapping),
    ensures
        fails_batch(other, rows, columns, mapping) ==> other == failure,
        !logs_batch(logs, rows, columns, mapping),
        (forall|i: int|
            0 <= i < rows.len() ==> (#[trigger] batch_log(
                rows,
                columns,
                *mapping.output,
                mapping.query_name@,
                i,
            )) is Ok) ==> resource_pairs(mapping.system, mapping.resource_attributes@) == Err::<
            Seq<Pair>,
            MappingFailure,
        >(failure),
        rows.len() > 0 ==> (batch_log(
            rows,
            columns,
            *mapping.output,
            mapping.query_name@,
            0,
        ) matches Err(first) ==> first == failure),
{
    let o = *mapping.output;
    let q = mapping.query_name@;
    if !maps_before(rows, columns, o, q, rows.len() as int) {
        let i = choose|i: int|
            0 <= i < rows.len() && !((#[trigger] batch_log(rows, columns, o, q, i)) is Ok);
        let a = choose|at: int|
            0 <= at < rows.len() && #[trigger] batch_log(rows, columns, o, q, at) == Err::<
                RowLog,
                MappingFailure,
            >(failure) && maps_before(rows, columns, o, q, at);
        assert(batch_log(rows, columns, o, q, a) is Err);
        if fails_batch(other, rows, columns, mapping) {
            let b = choose|at: int|
                0 <= at < rows.len() && #[trigger] batch_log(rows, columns, o, q, at) == Err::<
                    RowLog,
                    MappingFailure,
                >(other) && maps_before(rows, columns, o, q, at);
            if a < b {
                assert(batch_log(rows, columns, o, q, a) is Ok);
            }
            if b < a {
                assert(batch_log(rows, columns, o, q, b) is Ok);
            }
        }
        if batch_log(rows, columns, o, q, 0) is Err && a > 0 {
            assert(batch_log(rows, columns, o, q, 0) is Ok);
        }
    } else {
        assert forall|at: int| 0 <= at < rows.len() implies (#[trigger] batch_log(
            rows,
            columns,
            o,
            q,
            at,
        )) is Ok by {}
    }
}

/// The name that is told as unknown is the first of those checked that no column has.
pub proof fn law_unknown_columns_are_told_in_order(
    columns: Seq<ColumnMetadata>,
    names: Seq<Seq<char>>,
    a: int,
    b: int,
)
    requires
        is_first_unknown(columns, names, a),
    ensures
        0 <= a < names.len(),
        forall|i: int|
            0 <= i < columns.len() ==> !text::spells_alike((#[trigger] columns[i]).name@, names[a]),
        is_first_unknown(columns, names, b) ==> a == b,
{
    law_columns_are_found_whatever_their_case(columns, names[a]);
    assert(!has_column(columns, names[a]));
    if is_first_unknown(columns, names, b) {
        if a < b {
            assert(has_column(columns, names[a]));
        }
        if b < a {
            assert(has_column(columns, names[b]));
        }
    }
}

/// The columns of a row are those that have a value: as many as the shorter of the two.
pub proof fn law_columns_pair_with_values(values: Seq<CellValue>, columns: Seq<ColumnMetadata>)
    ensures
        paired(values, columns) <= values.len(),
        paired(values, columns) <= columns.len(),
        paired(values, columns) == values.len() || paired(values, columns) == columns.len(),
{
}

/// What an operator is told of a column names that column.
pub proof fn law_told_failures_name_their_column(failure: MappingFailure)
    ensures
        match failure {
            MappingFailure::UnknownColumn(name) => text::occurs(mapping_message(failure), name),
            MappingFailure::InvalidEventTimeType(name) => text::occurs(
                mapping_message(failure),
                name,
            ),
            MappingFailure::InvalidEventTime(name) => text::occurs(mapping_message(failure), name),
            MappingFailure::EventTimeOutOfRange(name) => text::occurs(
                mapping_message(failure),
                name,
            ),
            _ => true,
        },
{
    let told = mapping_message(failure);
    match failure {
        MappingFailure::UnknownColumn(name) => {
            let at = "configured output column '"@.len() as int;
            assert(told.subrange(at, at + name.len()) =~= name);
            assert(text::occurs_at(told, name, at));
        },
        MappingFailure::InvalidEventTimeType(name) => {
            let at = "event-time column '"@.len() as int;
            assert(told.subrange(at, at + name.len()) =~= name);
            assert(text::occurs_at(told, name, at));
        },
        MappingFailure::InvalidEventTime(name) => {
            let at = "event-time column '"@.len() as int;
            assert(told.subrange(at, at + name.len()) =~= name);
            assert(text::occurs_at(told, name, at));
        },
        MappingFailure::EventTimeOutOfRange(name) => {
            let at = "event-time column '"@.len() as int;
            assert(told.subrange(at, at + name.len()) =~= name);
            assert(text::occurs_at(told, name, at));
        },
        _ => {},
    }
}

} // verus!
