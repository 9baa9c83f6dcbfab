//! Deterministic neutral-row to OTLP-log mapping.

use crate::database::otlp;
use crate::database::otlp::{cell_to_any, parse_event_time};
use crate::database::row;
use crate::double;
use crate::otlp as logs;
use crate::otlp::{key_value, KeyValue, Pair};
use crate::scraper::row::{CellValue, Column, DatabaseRow, ResultSchema};
use crate::text;
use crate::text::{begins, same, same_but_case};
use vstd::prelude::*;

verus! {

/// How rows become logs.
#[derive(Debug)]
pub struct MappingConfig {
    /// The column that holds the event time, if one does.
    pub event_time_column: Option<String>,
    /// The prefix of attribute names that columns may not use; none when it is empty.
    pub reserved_attribute_prefix: String,
}

/// One log of a row.
pub struct OtlpLogRecord {
    /// When the event happened, in nanoseconds since the Unix epoch; zero when unknown.
    pub time_unix_nano: u64,
    /// When the event was observed, in nanoseconds since the Unix epoch.
    pub observed_time_unix_nano: u64,
    /// An attribute for each column.
    pub attributes: Vec<KeyValue>,
}

/// Why a row cannot become a log.
#[derive(Clone, Copy, Debug, PartialEq, Eq, Structural)]
pub enum MappingError {
    /// The row has more values or fewer than the result has columns.
    ColumnCountMismatch,
    /// Two columns have the same name, case aside.
    DuplicateColumn,
    /// A column has a name that is reserved.
    ReservedNameCollision,
    /// The event-time column is missing or holds no time of an event.
    InvalidEventTime,
    /// A value has no exact form in a log.
    UnsupportedValue,
    /// The encoded log is too large for a batch.
    EncodedSizeLimit,
}

/// The value that a value is in the receivers' row model.
pub open spec fn shared(value: CellValue) -> row::CellValue {
    match value {
        CellValue::Null => row::CellValue::Null,
        CellValue::Bool(value) => row::CellValue::Bool(value),
        CellValue::Int64(value) => row::CellValue::Int64(value),
        CellValue::UInt64(value) => row::CellValue::UInt64(value),
        CellValue::Decimal(value) => row::CellValue::Decimal(value),
        CellValue::Float64(value) => row::CellValue::Float64(value),
        CellValue::String(value) => row::CellValue::String(value),
        CellValue::Bytes(value) => row::CellValue::Bytes(value),
        CellValue::Date(value) => row::CellValue::Date(value),
        CellValue::Timestamp(value) => row::CellValue::Timestamp(value),
        CellValue::TimestampWithTimezone(value) => row::CellValue::TimestampTz(value),
        CellValue::Interval(value) => row::CellValue::Interval(value),
        CellValue::Json(value) => row::CellValue::Json(value),
        CellValue::Uuid(value) => row::CellValue::Uuid(value),
    }
}

/// Whether an earlier column has the name of this one, case aside.
pub open spec fn repeats(columns: Seq<Column>, at: int) -> bool {
    exists|k: int|
        0 <= k < at && text::lower((#[trigger] columns[k]).name@) == text::lower(
            columns[at].name@,
        )
}

/// Whether a name is reserved.
pub open spec fn is_reserved(name: Seq<char>, prefix: Seq<char>) -> bool {
    prefix.len() > 0 && text::begins_with(name, prefix)
}

/// What is wrong with the names of the first columns, if anything: the first column of an
/// earlier one's name or of a reserved name.
pub open spec fn name_failure(columns: Seq<Column>, prefix: Seq<char>, count: int) -> Option<
    MappingError,
>
    decreases count,
{
    if count <= 0 {
        None
    } else {
        match name_failure(columns, prefix, count - 1) {
            Some(error) => Some(error),
            None => if repeats(columns, count - 1) {
                Some(MappingError::DuplicateColumn)
            } else if is_reserved(columns[count - 1].name@, prefix) {
                Some(MappingError::ReservedNameCollision)
            } else {
                None
            },
        }
    }
}

/// The attributes of the first columns: each value under its column's name, without loss.
pub open spec fn attributes_of(columns: Seq<Column>, values: Seq<CellValue>, count: int) -> Result<
    Seq<Pair>,
    MappingError,
>
    decreases count,
{
    if count <= 0 {
        Ok(Seq::empty())
    } else {
        match attributes_of(columns, values, count - 1) {
            Err(error) => Err(error),
            Ok(pairs) => match otlp::cell_any(shared(values[count - 1])) {
                Ok(value) => Ok(pairs.push(Pair { key: columns[count - 1].name@, value: Some(value) })),
                Err(_) => Err(MappingError::UnsupportedValue),
            },
        }
    }
}

/// The first column of a name among the first columns, if there is one.
pub open spec fn column_of(columns: Seq<Column>, name: Seq<char>, count: int) -> Option<int>
    decreases count,
{
    if count <= 0 {
        None
    } else {
        match column_of(columns, name, count - 1) {
            Some(at) => Some(at),
            None => if columns[count - 1].name@ == name {
                Some(count - 1)
            } else {
                None
            },
        }
    }
}

/// The time of a row's event: zero when no column holds it.
pub open spec fn event_of(
    columns: Seq<Column>,
    values: Seq<CellValue>,
    event_column: Option<Seq<char>>,
) -> Result<u64, MappingError> {
    match event_column {
        None => Ok(0),
        Some(name) => match column_of(columns, name, columns.len() as int) {
            None => Err(MappingError::InvalidEventTime),
            Some(at) => match otlp::event_time(shared(values[at]), name) {
                Ok(nanos) => Ok(nanos),
                Err(_) => Err(MappingError::InvalidEventTime),
            },
        },
    }
}

/// A log as a mathematical value.
pub struct LogModel {
    pub time: u64,
    pub attributes: Seq<Pair>,
}

/// The log that a row becomes, or why it becomes none.
pub open spec fn mapped(
    columns: Seq<Column>,
    values: Seq<CellValue>,
    event_column: Option<Seq<char>>,
    prefix: Seq<char>,
) -> Result<LogModel, MappingError> {
    let count = columns.len() as int;
    if values.len() != columns.len() {
        Err(MappingError::ColumnCountMismatch)
    } else if name_failure(columns, prefix, count) is Some {
        Err(name_failure(columns, prefix, count)->0)
    } else {
        match attributes_of(columns, values, count) {
            Err(error) => Err(error),
            Ok(attributes) => match event_of(columns, values, event_column) {
                Err(error) => Err(error),
                Ok(time) => Ok(LogModel { time, attributes }),
            },
        }
    }
}

/// The configured event-time column.
pub open spec fn event_name(config: MappingConfig) -> Option<Seq<char>> {
    match config.event_time_column {
        Some(name) => Some(name@),
        None => None,
    }
}

fn share(value: &CellValue) -> (r: row::CellValue)
    ensures
        r@ == shared(*value)@,
{
    match value {
        CellValue::Null => row::CellValue::Null,
        CellValue::Bool(value) => row::CellValue::Bool(*value),
        CellValue::Int64(value) => row::CellValue::Int64(*value),
        CellValue::UInt64(value) => row::CellValue::UInt64(*value),
        CellValue::Decimal(value) => row::CellValue::Decimal(value.clone()),
        CellValue::Float64(value) => row::CellValue::Float64(*value),
        CellValue::String(value) => row::CellValue::String(value.clone()),
        CellValue::Bytes(value) => row::CellValue::Bytes(value.clone()),
        CellValue::Date(value) => row::CellValue::Date(value.clone()),
        CellValue::Timestamp(value) => row::CellValue::Timestamp(value.clone()),
        CellValue::TimestampWithTimezone(value) => row::CellValue::TimestampTz(value.clone()),
        CellValue::Interval(value) => row::CellValue::Interval(value.clone()),
        CellValue::Json(value) => row::CellValue::Json(value.clone()),
        CellValue::Uuid(value) => row::CellValue::Uuid(value.clone()),
    }
}

fn repeated(columns: &Vec<Column>, at: usize) -> (found: bool)
    requires
        at < columns@.len(),
    ensures
        found == repeats(columns@, at as int),
{
    let mut i: usize = 0;
    while i < at
        invariant
            i <= at < columns@.len(),
            forall|k: int|
                0 <= k < i ==> text::lower((#[trigger] columns@[k]).name@) != text::lower(
                    columns@[at as int].name@,
                ),
        decreases at - i,
    {
        if same_but_case(columns[i].name.as_str(), columns[at].name.as_str()) {
            assert(text::lower(columns@[i as int].name@) == text::lower(columns@[at as int].name@));
            return true;
        }
        i += 1;
    }
    false
}

fn check_names(columns: &Vec<Column>, prefix: &str) -> (r: Option<MappingError>)
    ensures
        r == name_failure(columns@, prefix@, columns@.len() as int),
{
    let mut failure: Option<MappingError> = None;
    let mut i: usize = 0;
    while i < columns.len()
        invariant
            i <= columns@.len(),
            failure == name_failure(columns@, prefix@, i as int),
        decreases columns.len() - i,
    {
        if failure.is_none() {
            if repeated(columns, i) {
                failure = Some(MappingError::DuplicateColumn);
            } else if !prefix.is_empty() && begins(columns[i].name.as_str(), prefix) {
                failure = Some(MappingError::ReservedNameCollision);
            }
        }
        i += 1;
    }
    failure
}

/// Once a column has failed, so have the attributes.
proof fn lemma_attributes_fail(columns: Seq<Column>, values: Seq<CellValue>, at: int, count: int)
    requires
        0 <= at <= count,
        attributes_of(columns, values, at) is Err,
    ensures
        attributes_of(columns, values, count) == attributes_of(columns, values, at),
    decreases count,
{
    if at < count {
        lemma_attributes_fail(columns, values, at, count - 1);
    }
}

fn map_values(columns: &Vec<Column>, values: &Vec<CellValue>) -> (r: Result<
    Vec<KeyValue>,
    MappingError,
>)
    requires
        columns@.len() == values@.len(),
    ensures
        match r {
            Ok(attributes) => attributes_of(columns@, values@, columns@.len() as int) == Ok::<
                Seq<Pair>,
                MappingError,
            >(logs::pairs(attributes@)),
            Err(error) => attributes_of(columns@, values@, columns@.len() as int) == Err::<
                Seq<Pair>,
                MappingError,
            >(error),
        },
{
    let mut attributes: Vec<KeyValue> = Vec::new();
    let mut i: usize = 0;
    assert(logs::pairs(attributes@) =~= Seq::<Pair>::empty());
    while i < columns.len()
        invariant
            i <= columns@.len(),
            columns@.len() == values@.len(),
            attributes_of(columns@, values@, i as int) == Ok::<Seq<Pair>, MappingError>(
                logs::pairs(attributes@),
            ),
        decreases columns.len() - i,
    {
        let ghost before = attributes@;
        match cell_to_any(&share(&values[i])) {
            Ok(value) => {
                attributes.push(key_value(columns[i].name.clone(), value));
                assert(logs::pairs(attributes@) =~= logs::pairs(before).push(
                    logs::pair(attributes@.last()),
                ));
            },
            Err(_) => {
                proof {
                    lemma_attributes_fail(columns@, values@, i + 1, columns@.len() as int);
                }
                return Err(MappingError::UnsupportedValue);
            },
        }
        i += 1;
    }
    Ok(attributes)
}

fn find_column(columns: &Vec<Column>, name: &str) -> (r: Option<usize>)
    ensures
        match r {
            Some(at) => at < columns@.len() && column_of(
                columns@,
                name@,
                columns@.len() as int,
            ) == Some(at as int),
            None => column_of(columns@, name@, columns@.len() as int) is None,
        },
{
    let mut found: Option<usize> = None;
    let mut i: usize = 0;
    while i < columns.len()
        invariant
            i <= columns@.len(),
            match found {
                Some(at) => at < i && column_of(columns@, name@, i as int) == Some(at as int),
                None => column_of(columns@, name@, i as int) is None,
            },
        decreases columns.len() - i,
    {
        if found.is_none() && same(columns[i].name.as_str(), name) {
            found = Some(i);
        }
        i += 1;
    }
    found
}

/// Maps every column of a row to an attribute, and its event-time column to the log's time.
/// The size of an encoded log is bounded where logs are encoded, so `EncodedSizeLimit` is
/// none of its errors.
pub fn map_row(
    schema: &ResultSchema,
    row: &DatabaseRow,
    config: &MappingConfig,
    observed_time_unix_nano: u64,
) -> (r: Result<OtlpLogRecord, MappingError>)
    ensures
        ({
            let wanted = mapped(
                schema.columns@,
                row.values@,
                event_name(*config),
                config.reserved_attribute_prefix@,
            );
            match r {
                Ok(log) => {
                    &&& wanted == Ok::<LogModel, MappingError>(
                        LogModel {
                            time: log.time_unix_nano,
                            attributes: logs::pairs(log.attributes@),
                        },
                    )
                    &&& log.observed_time_unix_nano == observed_time_unix_nano
                },
                Err(error) => wanted == Err::<LogModel, MappingError>(error),
            }
        }),
{
    if row.values.len() != schema.columns.len() {
        return Err(MappingError::ColumnCountMismatch);
    }
    if let Some(error) = check_names(&schema.columns, config.reserved_attribute_prefix.as_str()) {
        return Err(error);
    }
    let attributes = match map_values(&schema.columns, &row.values) {
        Ok(attributes) => attributes,
        Err(error) => {
            return Err(error);
        },
    };
    let time_unix_nano: u64 = match &config.event_time_column {
        None => 0,
        Some(name) => match find_column(&schema.columns, name.as_str()) {
            None => {
                return Err(MappingError::InvalidEventTime);
            },
            Some(at) => match parse_event_time(&share(&row.values[at]), name.as_str()) {
                Ok(nanos) => nanos,
                Err(_) => {
                    return Err(MappingError::InvalidEventTime);
                },
            },
        },
    };
    Ok(OtlpLogRecord { time_unix_nano, observed_time_unix_nano, attributes })
}

proof fn lemma_attributes_named(columns: Seq<Column>, values: Seq<CellValue>, count: int)
    requires
        0 <= count <= columns.len(),
        attributes_of(columns, values, count) is Ok,
    ensures
        attributes_of(columns, values, count)->Ok_0.len() == count,
        forall|i: int|
            0 <= i < count ==> (#[trigger] attributes_of(
                columns,
                values,
                count,
            )->Ok_0[i]).key == columns[i].name@,
    decreases count,
{
    if count > 0 {
        lemma_attributes_named(columns, values, count - 1);
    }
}

/// Nothing of a row is lost and nothing is added: a mapped row has exactly one attribute for
/// each column, in order, under the column's own name.
pub proof fn law_every_column_is_an_attribute(
    columns: Seq<Column>,
    values: Seq<CellValue>,
    event_column: Option<Seq<char>>,
    prefix: Seq<char>,
)
    requires
        mapped(columns, values, event_column, prefix) is Ok,
    ensures
        ({
            let log = mapped(columns, values, event_column, prefix)->Ok_0;
            &&& log.attributes.len() == columns.len()
            &&& forall|i: int|
                0 <= i < columns.len() ==> (#[trigger] log.attributes[i]).key == columns[i].name@
        }),
{
    lemma_attributes_named(columns, values, columns.len() as int);
}

/// Whether a log's value carries a cell's own: nothing, a boolean, an integer or a finite
/// double as itself, bytes in base64, and every textual form as its text.
pub open spec fn carries(value: logs::Any, cell: CellValue) -> bool {
    match (cell, value) {
        (CellValue::Null, logs::Any::Empty) => true,
        (CellValue::Bool(b), logs::Any::Bool(c)) => b == c,
        (CellValue::Int64(n), logs::Any::Int(m)) => n == m,
        (CellValue::UInt64(n), _) => otlp::stands_for(value, n as int),
        (CellValue::Float64(d), logs::Any::Double(e)) => d.bits == e.bits,
        (CellValue::Bytes(b), logs::Any::Text(t)) => t == otlp::base64_text(b@),
        (CellValue::Decimal(s), logs::Any::Text(t)) => s@ == t,
        (CellValue::String(s), logs::Any::Text(t)) => s@ == t,
        (CellValue::Date(s), logs::Any::Text(t)) => s@ == t,
        (CellValue::Timestamp(s), logs::Any::Text(t)) => s@ == t,
        (CellValue::TimestampWithTimezone(s), logs::Any::Text(t)) => s@ == t,
        (CellValue::Interval(s), logs::Any::Text(t)) => s@ == t,
        (CellValue::Json(s), logs::Any::Text(t)) => s@ == t,
        (CellValue::Uuid(s), logs::Any::Text(t)) => s@ == t,
        _ => false,
    }
}

/// Whether a cell has an exact form in a log: every one but a double that is no number.
pub open spec fn is_exact(cell: CellValue) -> bool {
    cell matches CellValue::Float64(d) ==> double::finite(d.bits)
}

proof fn lemma_cell_is_carried(cell: CellValue)
    ensures
        otlp::cell_any(shared(cell)) is Ok <==> is_exact(cell),
        otlp::cell_any(shared(cell)) matches Ok(value) ==> carries(value, cell),
{
    otlp::law_cells_map_to_their_values(shared(cell));
}

proof fn lemma_attributes_carry(columns: Seq<Column>, values: Seq<CellValue>, count: int)
    requires
        0 <= count <= columns.len(),
        columns.len() == values.len(),
    ensures
        match attributes_of(columns, values, count) {
            Ok(pairs) => pairs.len() == count && forall|i: int|
                0 <= i < count ==> is_exact(values[i]) && (#[trigger] pairs[i]).key
                    == columns[i].name@ && pairs[i].value is Some && carries(
                    pairs[i].value->0,
                    values[i],
                ),
            Err(error) => error == MappingError::UnsupportedValue && exists|i: int|
                0 <= i < count && !is_exact(#[trigger] values[i]),
        },
    decreases count,
{
    if count > 0 {
        lemma_attributes_carry(columns, values, count - 1);
        lemma_cell_is_carried(values[count - 1]);
        if attributes_of(columns, values, count - 1) is Ok && attributes_of(
            columns,
            values,
            count,
        ) is Err {
            assert(!is_exact(values[count - 1]));
        }
    }
}

/// Every value of a mapped row stands in the log as it was, under its own column's name and in
/// its own place.
pub proof fn law_every_value_is_carried(
    columns: Seq<Column>,
    values: Seq<CellValue>,
    event_column: Option<Seq<char>>,
    prefix: Seq<char>,
    i: int,
)
    requires
        0 <= i < columns.len(),
    ensures
        mapped(columns, values, event_column, prefix) matches Ok(log) ==> {
            &&& log.attributes.len() == columns.len() == values.len()
            &&& log.attributes[i].key == columns[i].name@
            &&& log.attributes[i].value matches Some(value) && carries(value, values[i])
        },
{
    if values.len() == columns.len() {
        lemma_attributes_carry(columns, values, columns.len() as int);
    }
}

/// The column of a name is the first of exactly that name.
pub proof fn law_column_of_a_name_is_the_first(columns: Seq<Column>, name: Seq<char>, count: int)
    requires
        0 <= count <= columns.len(),
    ensures
        match column_of(columns, name, count) {
            Some(at) => 0 <= at < count && columns[at].name@ == name && forall|i: int|
                0 <= i < at ==> (#[trigger] columns[i]).name@ != name,
            None => forall|i: int| 0 <= i < count ==> (#[trigger] columns[i]).name@ != name,
        },
    decreases count,
{
    if count > 0 {
        law_column_of_a_name_is_the_first(columns, name, count - 1);
    }
}

/// A log's time is the one that the cell of the event column tells: the first column of that
/// very name. Without such a column in the settings the log has no time, and with one that the
/// row does not have there is no log.
pub proof fn law_time_is_of_the_event_column(
    columns: Seq<Column>,
    values: Seq<CellValue>,
    event_column: Option<Seq<char>>,
    prefix: Seq<char>,
    at: int,
)
    ensures
        mapped(columns, values, event_column, prefix) matches Ok(log) ==> match event_column {
            None => log.time == 0,
            Some(name) => {
                &&& exists|i: int| 0 <= i < columns.len() && (#[trigger] columns[i]).name@ == name
                &&& 0 <= at < columns.len() && columns[at].name@ == name && (forall|i: int|
                    0 <= i < at ==> (#[trigger] columns[i]).name@ != name) ==> match values[at] {
                    CellValue::Date(s) => otlp::event_time(row::CellValue::Date(s), name),
                    CellValue::Timestamp(s) => otlp::event_time(row::CellValue::Timestamp(s), name),
                    CellValue::TimestampWithTimezone(s) => otlp::event_time(
                        row::CellValue::TimestampTz(s),
                        name,
                    ),
                    CellValue::String(s) => otlp::event_time(row::CellValue::String(s), name),
                    _ => Err(otlp::MappingFailure::InvalidEventTimeType(name)),
                } == Ok::<u64, otlp::MappingFailure>(log.time)
            },
        },
{
    match event_column {
        None => {},
        Some(name) => {
            law_column_of_a_name_is_the_first(columns, name, columns.len() as int);
            match column_of(columns, name, columns.len() as int) {
                None => {},
                Some(found) => {
                    otlp::law_times_are_told_by_texts(shared(values[found]), name);
                    assert(columns[found].name@ == name);
                    if 0 <= at < columns.len() && columns[at].name@ == name && forall|i: int|
                        0 <= i < at ==> (#[trigger] columns[i]).name@ != name {
                        if at < found {
                            assert(columns[at].name@ != name);
                        }
                        if found < at {
                            assert(columns[found].name@ != name);
                        }
                    }
                },
            }
        },
    }
}

/// Whether the column at a place spells the name of an earlier one, case aside.
pub open spec fn spells_an_earlier(columns: Seq<Column>, at: int) -> bool {
    exists|k: int|
        0 <= k < at && text::spells_alike((#[trigger] columns[k]).name@, columns[at].name@)
}

/// Whether the name of the column at a place starts with the reserved prefix.
pub open spec fn starts_reserved(columns: Seq<Column>, prefix: Seq<char>, at: int) -> bool {
    &&& 0 < prefix.len() <= columns[at].name@.len()
    &&& forall|j: int| 0 <= j < prefix.len() ==> columns[at].name@[j] == #[trigger] prefix[j]
}

proof fn lemma_name_failure_of_one(columns: Seq<Column>, prefix: Seq<char>, at: int)
    requires
        0 <= at < columns.len(),
    ensures
        repeats(columns, at) <==> spells_an_earlier(columns, at),
        is_reserved(columns[at].name@, prefix) <==> starts_reserved(columns, prefix, at),
{
    let name = columns[at].name@;
    assert forall|k: int| 0 <= k < at implies (text::lower((#[trigger] columns[k]).name@)
        == text::lower(name) <==> text::spells_alike(columns[k].name@, name)) by {
        text::law_case_is_all_that_is_ignored(columns[k].name@, name);
    }
    if repeats(columns, at) {
        let k = choose|k: int|
            0 <= k < at && text::lower((#[trigger] columns[k]).name@) == text::lower(
                columns[at].name@,
            );
        assert(text::spells_alike(columns[k].name@, columns[at].name@));
    }
    if spells_an_earlier(columns, at) {
        let k = choose|k: int|
            0 <= k < at && text::spells_alike((#[trigger] columns[k]).name@, columns[at].name@);
        assert(text::lower(columns[k].name@) == text::lower(columns[at].name@));
    }
    if starts_reserved(columns, prefix, at) {
        assert(name.subrange(0, prefix.len() as int) =~= prefix);
    }
    if is_reserved(name, prefix) {
        assert(name.subrange(0, prefix.len() as int) == prefix);
        assert forall|j: int| 0 <= j < prefix.len() implies name[j] == #[trigger] prefix[j] by {
            assert(name.subrange(0, prefix.len() as int)[j] == prefix[j]);
        }
    }
}

/// Whether the first columns have names of their own, none of them reserved.
pub open spec fn named_apart(columns: Seq<Column>, prefix: Seq<char>, count: int) -> bool {
    forall|i: int|
        0 <= i < count ==> !(#[trigger] spells_an_earlier(columns, i)) && !starts_reserved(
            columns,
            prefix,
            i,
        )
}

/// Names are refused for the first column that spells an earlier one's name or starts with the
/// reserved prefix, and accepted where no column does.
pub proof fn law_names_are_told_apart(columns: Seq<Column>, prefix: Seq<char>, count: int)
    requires
        0 <= count <= columns.len(),
    ensures
        name_failure(columns, prefix, count) is None <==> named_apart(columns, prefix, count),
        name_failure(columns, prefix, count) matches Some(error) ==> exists|i: int|
            0 <= i < count && #[trigger] named_apart(columns, prefix, i) && error == (
            if spells_an_earlier(columns, i) {
                MappingError::DuplicateColumn
            } else {
                MappingError::ReservedNameCollision
            }) && (spells_an_earlier(columns, i) || starts_reserved(columns, prefix, i)),
    decreases count,
{
    if count > 0 {
        law_names_are_told_apart(columns, prefix, count - 1);
        lemma_name_failure_of_one(columns, prefix, count - 1);
        if name_failure(columns, prefix, count - 1) is None {
            assert(named_apart(columns, prefix, count - 1));
            if named_apart(columns, prefix, count) {
                assert(!spells_an_earlier(columns, count - 1));
            }
        } else if named_apart(columns, prefix, count) {
            assert(named_apart(columns, prefix, count - 1));
        }
    }
}

/// A row of another length than the result's is refused first, then bad names, then a value
/// without an exact form, then an event time that is not told.
pub proof fn law_rows_are_refused_in_order(
    columns: Seq<Column>,
    values: Seq<CellValue>,
    event_column: Option<Seq<char>>,
    prefix: Seq<char>,
)
    ensures
        ({
            let wanted = mapped(columns, values, event_column, prefix);
            let named = named_apart(columns, prefix, columns.len() as int);
            let exact = forall|i: int| 0 <= i < values.len() ==> is_exact(#[trigger] values[i]);
            if values.len() != columns.len() {
                wanted == Err::<LogModel, MappingError>(MappingError::ColumnCountMismatch)
            } else if !named {
                wanted is Err && (wanted->Err_0 is DuplicateColumn || wanted->Err_0
                    is ReservedNameCollision)
            } else if !exact {
                wanted == Err::<LogModel, MappingError>(MappingError::UnsupportedValue)
            } else {
                &&& wanted is Ok || wanted->Err_0 is InvalidEventTime
                &&& event_column is None ==> wanted is Ok
            }
        }),
{
    if values.len() == columns.len() {
        law_names_are_told_apart(columns, prefix, columns.len() as int);
        lemma_attributes_carry(columns, values, columns.len() as int);
        match attributes_of(columns, values, columns.len() as int) {
            Ok(pairs) => {
                assert forall|i: int| 0 <= i < values.len() implies is_exact(#[trigger] values[i]) by {
                    assert(pairs[i].key == columns[i].name@);
                }
            },
            Err(_) => {},
        }
    }
}

} // verus!
