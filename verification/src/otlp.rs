//! OTLP log data, as far as database rows fill it.

use crate::double::Double;
use vstd::prelude::*;

verus! {

/// A value of any kind.
pub struct AnyValue {
    /// The value; absent for SQL NULL and JSON `null`.
    pub value: Option<AnyValueKind>,
}

/// The kinds of value.
pub enum AnyValueKind {
    /// Text.
    StringValue(String),
    /// A boolean.
    BoolValue(bool),
    /// A signed integer.
    IntValue(i64),
    /// A double.
    DoubleValue(Double),
    /// A list of values.
    ArrayValue(ArrayValue),
    /// A list of named values.
    KvlistValue(KeyValueList),
}

/// A list of values.
pub struct ArrayValue {
    /// The values in order.
    pub values: Vec<AnyValue>,
}

/// A list of named values.
pub struct KeyValueList {
    /// The named values in order.
    pub values: Vec<KeyValue>,
}

/// A named value.
pub struct KeyValue {
    /// The name.
    pub key: String,
    /// The value.
    pub value: Option<AnyValue>,
}

/// The entity that produced logs.
pub struct Resource {
    /// What is known of the entity.
    pub attributes: Vec<KeyValue>,
}

/// The instrumentation that produced logs.
pub struct InstrumentationScope {
    /// The instrumentation's name.
    pub name: String,
    /// The instrumentation's version.
    pub version: String,
}

/// One log.
pub struct LogRecord {
    /// When the event happened, in nanoseconds since the Unix epoch.
    pub time_unix_nano: u64,
    /// When the event was observed, in nanoseconds since the Unix epoch.
    pub observed_time_unix_nano: u64,
    /// Numeric severity.
    pub severity_number: i32,
    /// Severity text.
    pub severity_text: String,
    /// The log's content.
    pub body: Option<AnyValue>,
    /// What else is known of the event.
    pub attributes: Vec<KeyValue>,
    /// The kind of event.
    pub event_name: String,
}

/// Logs of one instrumentation.
pub struct ScopeLogs {
    /// The instrumentation.
    pub scope: Option<InstrumentationScope>,
    /// Its logs.
    pub log_records: Vec<LogRecord>,
}

/// Logs of one entity.
pub struct ResourceLogs {
    /// The entity.
    pub resource: Option<Resource>,
    /// Its logs.
    pub scope_logs: Vec<ScopeLogs>,
}

/// Logs of any number of entities.
pub struct LogsData {
    /// The logs, by entity.
    pub resource_logs: Vec<ResourceLogs>,
}

/// A value of any kind as a mathematical tree.
pub enum Any {
    Empty,
    Bool(bool),
    Int(i64),
    Double(Double),
    Text(Seq<char>),
    Array(Seq<Any>),
    Pairs(Seq<Pair>),
}

/// A named value in a tree; an absent value is none, not even an empty one.
pub struct Pair {
    pub key: Seq<char>,
    pub value: Option<Any>,
}

/// The tree that a value is.
pub open spec fn any(value: AnyValue) -> Any
    decreases value,
{
    match value.value {
        None => Any::Empty,
        Some(AnyValueKind::BoolValue(b)) => Any::Bool(b),
        Some(AnyValueKind::IntValue(n)) => Any::Int(n),
        Some(AnyValueKind::DoubleValue(d)) => Any::Double(d),
        Some(AnyValueKind::StringValue(s)) => Any::Text(s@),
        Some(AnyValueKind::ArrayValue(list)) => Any::Array(
            Seq::new(
                list.values@.len(),
                |i: int|
                    if 0 <= i < list.values@.len() {
                        any(list.values@[i])
                    } else {
                        Any::Empty
                    },
            ),
        ),
        Some(AnyValueKind::KvlistValue(list)) => Any::Pairs(
            Seq::new(
                list.values@.len(),
                |i: int|
                    if 0 <= i < list.values@.len() {
                        pair(list.values@[i])
                    } else {
                        Pair { key: Seq::empty(), value: None }
                    },
            ),
        ),
    }
}

/// The named value in a tree.
pub open spec fn pair(named: KeyValue) -> Pair
    decreases named,
{
    Pair {
        key: named.key@,
        value: match named.value {
            Some(value) => Some(any(value)),
            None => None,
        },
    }
}

/// A run of named values in a tree.
pub open spec fn pairs(named: Seq<KeyValue>) -> Seq<Pair> {
    named.map_values(|one: KeyValue| pair(one))
}

/// A text value.
pub fn text_value(value: String) -> (r: AnyValue)
    ensures
        any(r) == Any::Text(value@),
{
    AnyValue { value: Some(AnyValueKind::StringValue(value)) }
}

/// An integer value.
pub fn int_value(value: i64) -> (r: AnyValue)
    ensures
        any(r) == Any::Int(value),
{
    AnyValue { value: Some(AnyValueKind::IntValue(value)) }
}

/// A boolean value.
pub fn bool_value(value: bool) -> (r: AnyValue)
    ensures
        any(r) == Any::Bool(value),
{
    AnyValue { value: Some(AnyValueKind::BoolValue(value)) }
}

/// A floating-point value.
pub fn double_value(value: Double) -> (r: AnyValue)
    ensures
        any(r) == Any::Double(value),
{
    AnyValue { value: Some(AnyValueKind::DoubleValue(value)) }
}

/// No value.
pub fn empty_value() -> (r: AnyValue)
    ensures
        any(r) == Any::Empty,
{
    AnyValue { value: None }
}

/// A list of values.
pub fn array_value(values: Vec<AnyValue>) -> (r: AnyValue)
    ensures
        any(r) == Any::Array(values@.map_values(|one: AnyValue| any(one))),
{
    let ghost all = values@.map_values(|one: AnyValue| any(one));
    let r = AnyValue { value: Some(AnyValueKind::ArrayValue(ArrayValue { values })) };
    assert(any(r)->Array_0 =~= all);
    r
}

/// A list of named values.
pub fn pairs_value(values: Vec<KeyValue>) -> (r: AnyValue)
    ensures
        any(r) == Any::Pairs(pairs(values@)),
        r.value matches Some(AnyValueKind::KvlistValue(list)) && list.values@ == values@,
{
    let ghost all = pairs(values@);
    let r = AnyValue { value: Some(AnyValueKind::KvlistValue(KeyValueList { values })) };
    assert(any(r)->Pairs_0 =~= all);
    r
}

/// A named value.
pub fn key_value(key: String, value: AnyValue) -> (r: KeyValue)
    ensures
        r.key == key,
        r.value == Some(value),
        pair(r) == (Pair { key: key@, value: Some(any(value)) }),
{
    KeyValue { key, value: Some(value) }
}

/// The tree of a value has the value's own kind, scalar, parts and names, in the same order.
pub proof fn law_trees_have_the_parts_of_their_value(value: AnyValue, i: int)
    ensures
        match value.value {
            None => any(value) is Empty,
            Some(AnyValueKind::BoolValue(b)) => any(value) == Any::Bool(b),
            Some(AnyValueKind::IntValue(n)) => any(value) == Any::Int(n),
            Some(AnyValueKind::DoubleValue(d)) => any(value) == Any::Double(d),
            Some(AnyValueKind::StringValue(s)) => any(value) == Any::Text(s@),
            Some(AnyValueKind::ArrayValue(list)) => any(value) is Array && any(value)->Array_0.len()
                == list.values@.len() && (0 <= i < list.values@.len() ==> any(value)->Array_0[i]
                == any(list.values@[i])),
            Some(AnyValueKind::KvlistValue(list)) => any(value) is Pairs && any(
                value,
            )->Pairs_0.len() == list.values@.len() && (0 <= i < list.values@.len() ==> any(
                value,
            )->Pairs_0[i].key == list.values@[i].key@ && (list.values@[i].value matches Some(part)
                ==> any(value)->Pairs_0[i].value == Some(any(part))) && (list.values@[i].value
                is None ==> any(value)->Pairs_0[i].value is None)),
        },
{
    reveal_with_fuel(any, 2);
    reveal_with_fuel(pair, 2);
}

} // verus!
