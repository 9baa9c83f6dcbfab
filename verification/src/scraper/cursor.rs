//! Source progress independent of a database driver's native value types.

use crate::names;
use crate::names::precedes;
use crate::scraper::row::CellValue;
use crate::text::same;
use vstd::prelude::*;

verus! {

/// A position in a source.
pub struct Cursor {
    /// The cursor columns in order of significance.
    pub fields: Vec<CursorField>,
}

/// One column of a position.
pub struct CursorField {
    /// The column.
    pub column: String,
    /// Its value.
    pub value: CellValue,
}

/// How a source's positions are made.
pub struct CursorDefinition {
    /// The cursor columns in order of significance.
    pub ordered_columns: Vec<String>,
    /// Where polling starts; at the beginning when absent.
    pub initial_position: Option<Cursor>,
}

/// What a checkpoint has to agree with to be used.
#[derive(Clone, Copy, Debug)]
pub struct CheckpointFingerprint {
    /// The version of the fingerprint's definition.
    pub version: u32,
    /// The fingerprint.
    pub digest: [u8; 32],
}

/// Why a position cannot follow another.
#[derive(Clone, Copy, Debug, PartialEq, Eq, Structural)]
pub enum CursorError {
    /// A cursor column is missing or another stands in its place.
    MissingColumn,
    /// A cursor column is NULL.
    NullValue,
    /// A cursor column changed its type.
    TypeChanged,
    /// The position is not after the committed one.
    NotStrictlyOrdered,
    /// A cursor column's type has no exact order.
    NotRepresentable,
}

/// Whether values of this kind have an exact order by what they hold.
pub open spec fn is_ordered(value: CellValue) -> bool {
    value is Bool || value is Int64 || value is UInt64 || value is String || value is Bytes
        || value is Date || value is Timestamp
}

/// Whether two values are of the same kind.
pub open spec fn same_kind(a: CellValue, b: CellValue) -> bool {
    match a {
        CellValue::Null => b is Null,
        CellValue::Bool(_) => b is Bool,
        CellValue::Int64(_) => b is Int64,
        CellValue::UInt64(_) => b is UInt64,
        CellValue::Decimal(_) => b is Decimal,
        CellValue::Float64(_) => b is Float64,
        CellValue::String(_) => b is String,
        CellValue::Bytes(_) => b is Bytes,
        CellValue::Date(_) => b is Date,
        CellValue::Timestamp(_) => b is Timestamp,
        CellValue::TimestampWithTimezone(_) => b is TimestampWithTimezone,
        CellValue::Interval(_) => b is Interval,
        CellValue::Json(_) => b is Json,
        CellValue::Uuid(_) => b is Uuid,
    }
}

/// Lexicographic order of bytes.
pub open spec fn bytes_before(a: Seq<u8>, b: Seq<u8>) -> bool
    decreases a.len(),
{
    if b.len() == 0 {
        false
    } else if a.len() == 0 {
        true
    } else if a[0] != b[0] {
        a[0] < b[0]
    } else {
        bytes_before(a.drop_first(), b.drop_first())
    }
}

/// How two values of the same ordered kind relate.
#[derive(Clone, Copy, Debug, PartialEq, Eq, Structural)]
pub enum Relation {
    /// The first is before the second.
    Before,
    /// They are the same.
    Same,
    /// The first is after the second.
    After,
}

/// The relation of two values whose order is given.
pub open spec fn relation(before: bool, equal: bool) -> Relation {
    if equal {
        Relation::Same
    } else if before {
        Relation::Before
    } else {
        Relation::After
    }
}

/// How two values of the same ordered kind relate.
pub open spec fn relates(a: CellValue, b: CellValue) -> Relation {
    match (a, b) {
        (CellValue::Bool(x), CellValue::Bool(y)) => relation(!x && y, x == y),
        (CellValue::Int64(x), CellValue::Int64(y)) => relation(x < y, x == y),
        (CellValue::UInt64(x), CellValue::UInt64(y)) => relation(x < y, x == y),
        (CellValue::String(x), CellValue::String(y)) => relation(names::before(x@, y@), x@ == y@),
        (CellValue::Date(x), CellValue::Date(y)) => relation(names::before(x@, y@), x@ == y@),
        (CellValue::Timestamp(x), CellValue::Timestamp(y)) => relation(
            names::before(x@, y@),
            x@ == y@,
        ),
        (CellValue::Bytes(x), CellValue::Bytes(y)) => relation(bytes_before(x@, y@), x@ == y@),
        _ => Relation::After,
    }
}

/// Why a single position is no position, if it is none: the first column that is NULL or
/// has no exact order.
pub open spec fn field_failure(fields: Seq<CursorField>) -> Option<CursorError>
    decreases fields.len(),
{
    if fields.len() == 0 {
        None
    } else {
        match field_failure(fields.drop_last()) {
            Some(error) => Some(error),
            None => if fields.last().value is Null {
                Some(CursorError::NullValue)
            } else if !is_ordered(fields.last().value) {
                Some(CursorError::NotRepresentable)
            } else {
                None
            },
        }
    }
}

/// Why a position cannot follow a committed one column by column, if it cannot: the first
/// column of another name or another type.
pub open spec fn shape_failure(committed: Seq<CursorField>, returned: Seq<CursorField>) -> Option<
    CursorError,
>
    decreases returned.len(),
{
    if returned.len() == 0 {
        None
    } else {
        match shape_failure(committed, returned.drop_last()) {
            Some(error) => Some(error),
            None => {
                let at = returned.len() - 1;
                if committed[at].column@ != returned[at].column@ {
                    Some(CursorError::MissingColumn)
                } else if !same_kind(committed[at].value, returned[at].value) {
                    Some(CursorError::TypeChanged)
                } else {
                    None
                }
            },
        }
    }
}

/// Whether a position is strictly after another: the first column that differs is greater.
pub open spec fn strictly_after(committed: Seq<CursorField>, returned: Seq<CursorField>, from: int) -> bool
    decreases returned.len() - from,
{
    if from < 0 || from >= returned.len() || from >= committed.len() {
        false
    } else {
        match relates(committed[from].value, returned[from].value) {
            Relation::Before => true,
            Relation::Same => strictly_after(committed, returned, from + 1),
            Relation::After => false,
        }
    }
}

/// Why a returned position may not be used after a committed one, if it may not.
pub open spec fn order_failure(committed: Option<Seq<CursorField>>, returned: Seq<CursorField>) -> Option<
    CursorError,
> {
    if returned.len() == 0 {
        Some(CursorError::MissingColumn)
    } else if field_failure(returned) is Some {
        field_failure(returned)
    } else {
        match committed {
            None => None,
            Some(committed) => if committed.len() != returned.len() {
                Some(CursorError::MissingColumn)
            } else if shape_failure(committed, returned) is Some {
                shape_failure(committed, returned)
            } else if !strictly_after(committed, returned, 0) {
                Some(CursorError::NotStrictlyOrdered)
            } else {
                None
            },
        }
    }
}

fn bytes_precede(a: &Vec<u8>, b: &Vec<u8>) -> (found: bool)
    ensures
        found == bytes_before(a@, b@),
{
    let mut i: usize = 0;
    assert(a@.skip(0) == a@);
    assert(b@.skip(0) == b@);
    while i < a.len() && i < b.len()
        invariant
            i <= a@.len(),
            i <= b@.len(),
            bytes_before(a@, b@) == bytes_before(a@.skip(i as int), b@.skip(i as int)),
        decreases a.len() - i,
    {
        if a[i] != b[i] {
            return a[i] < b[i];
        }
        assert(a@.skip(i as int).drop_first() == a@.skip(i + 1));
        assert(b@.skip(i as int).drop_first() == b@.skip(i + 1));
        i += 1;
    }
    i < b.len()
}

fn bytes_same(a: &Vec<u8>, b: &Vec<u8>) -> (found: bool)
    ensures
        found == (a@ == b@),
{
    if a.len() != b.len() {
        return false;
    }
    let mut i: usize = 0;
    while i < a.len()
        invariant
            i <= a@.len(),
            a@.len() == b@.len(),
            forall|j: int| 0 <= j < i ==> a@[j] == b@[j],
        decreases a.len() - i,
    {
        if a[i] != b[i] {
            return false;
        }
        i += 1;
    }
    assert(a@ =~= b@);
    true
}

fn relation_of(before: bool, equal: bool) -> (r: Relation)
    ensures
        r == relation(before, equal),
{
    if equal {
        Relation::Same
    } else if before {
        Relation::Before
    } else {
        Relation::After
    }
}

fn relate(a: &CellValue, b: &CellValue) -> (r: Relation)
    ensures
        r == relates(*a, *b),
{
    match (a, b) {
        (CellValue::Bool(x), CellValue::Bool(y)) => relation_of(!*x && *y, *x == *y),
        (CellValue::Int64(x), CellValue::Int64(y)) => relation_of(*x < *y, *x == *y),
        (CellValue::UInt64(x), CellValue::UInt64(y)) => relation_of(*x < *y, *x == *y),
        (CellValue::String(x), CellValue::String(y)) => relation_of(
            precedes(x.as_str(), y.as_str()),
            same(x.as_str(), y.as_str()),
        ),
        (CellValue::Date(x), CellValue::Date(y)) => relation_of(
            precedes(x.as_str(), y.as_str()),
            same(x.as_str(), y.as_str()),
        ),
        (CellValue::Timestamp(x), CellValue::Timestamp(y)) => relation_of(
            precedes(x.as_str(), y.as_str()),
            same(x.as_str(), y.as_str()),
        ),
        (CellValue::Bytes(x), CellValue::Bytes(y)) => relation_of(
            bytes_precede(x, y),
            bytes_same(x, y),
        ),
        _ => Relation::After,
    }
}

fn kinds_agree(a: &CellValue, b: &CellValue) -> (found: bool)
    ensures
        found == same_kind(*a, *b),
{
    match (a, b) {
        (CellValue::Null, CellValue::Null) => true,
        (CellValue::Bool(_), CellValue::Bool(_)) => true,
        (CellValue::Int64(_), CellValue::Int64(_)) => true,
        (CellValue::UInt64(_), CellValue::UInt64(_)) => true,
        (CellValue::Decimal(_), CellValue::Decimal(_)) => true,
        (CellValue::Float64(_), CellValue::Float64(_)) => true,
        (CellValue::String(_), CellValue::String(_)) => true,
        (CellValue::Bytes(_), CellValue::Bytes(_)) => true,
        (CellValue::Date(_), CellValue::Date(_)) => true,
        (CellValue::Timestamp(_), CellValue::Timestamp(_)) => true,
        (CellValue::TimestampWithTimezone(_), CellValue::TimestampWithTimezone(_)) => true,
        (CellValue::Interval(_), CellValue::Interval(_)) => true,
        (CellValue::Json(_), CellValue::Json(_)) => true,
        (CellValue::Uuid(_), CellValue::Uuid(_)) => true,
        _ => false,
    }
}

fn check_fields(fields: &Vec<CursorField>) -> (r: Option<CursorError>)
    ensures
        r == field_failure(fields@),
{
    let mut i: usize = 0;
    while i < fields.len()
        invariant
            i <= fields@.len(),
            field_failure(fields@.take(i as int)) is None,
        decreases fields.len() - i,
    {
        let ghost next = fields@.take(i + 1);
        assert(next.drop_last() =~= fields@.take(i as int));
        assert(next.last() == fields@[i as int]);
        let failure: Option<CursorError> = match &fields[i].value {
            CellValue::Null => Some(CursorError::NullValue),
            CellValue::Bool(_) => None,
            CellValue::Int64(_) => None,
            CellValue::UInt64(_) => None,
            CellValue::String(_) => None,
            CellValue::Bytes(_) => None,
            CellValue::Date(_) => None,
            CellValue::Timestamp(_) => None,
            _ => Some(CursorError::NotRepresentable),
        };
        if failure.is_some() {
            proof {
                lemma_field_failure(fields@, (i + 1) as nat);
            }
            return failure;
        }
        i += 1;
    }
    assert(fields@.take(fields@.len() as int) =~= fields@);
    None
}

proof fn lemma_field_failure(fields: Seq<CursorField>, count: nat)
    requires
        count <= fields.len(),
        field_failure(fields.take(count as int)) is Some,
    ensures
        field_failure(fields) == field_failure(fields.take(count as int)),
    decreases fields.len(),
{
    if count == fields.len() {
        assert(fields.take(count as int) =~= fields);
    } else {
        assert(fields.drop_last().take(count as int) =~= fields.take(count as int));
        lemma_field_failure(fields.drop_last(), count);
    }
}

fn check_shape(committed: &Vec<CursorField>, returned: &Vec<CursorField>) -> (r: Option<CursorError>)
    requires
        committed@.len() == returned@.len(),
    ensures
        r == shape_failure(committed@, returned@),
{
    let mut i: usize = 0;
    while i < returned.len()
        invariant
            i <= returned@.len(),
            committed@.len() == returned@.len(),
            shape_failure(committed@, returned@.take(i as int)) is None,
        decreases returned.len() - i,
    {
        let ghost next = returned@.take(i + 1);
        assert(next.drop_last() =~= returned@.take(i as int));
        assert(next.last() == returned@[i as int]);
        let failure: Option<CursorError> = if !same(
            committed[i].column.as_str(),
            returned[i].column.as_str(),
        ) {
            Some(CursorError::MissingColumn)
        } else if !kinds_agree(&committed[i].value, &returned[i].value) {
            Some(CursorError::TypeChanged)
        } else {
            None
        };
        if failure.is_some() {
            proof {
                lemma_shape_failure(committed@, returned@, (i + 1) as nat);
            }
            return failure;
        }
        i += 1;
    }
    assert(returned@.take(returned@.len() as int) =~= returned@);
    None
}

proof fn lemma_shape_failure(committed: Seq<CursorField>, returned: Seq<CursorField>, count: nat)
    requires
        count <= returned.len(),
        shape_failure(committed, returned.take(count as int)) is Some,
    ensures
        shape_failure(committed, returned) == shape_failure(committed, returned.take(count as int)),
    decreases returned.len(),
{
    if count == returned.len() {
        assert(returned.take(count as int) =~= returned);
    } else {
        assert(returned.drop_last().take(count as int) =~= returned.take(count as int));
        lemma_shape_failure(committed, returned.drop_last(), count);
    }
}

fn follows(committed: &Vec<CursorField>, returned: &Vec<CursorField>) -> (found: bool)
    requires
        committed@.len() == returned@.len(),
    ensures
        found == strictly_after(committed@, returned@, 0),
{
    let mut i: usize = 0;
    while i < returned.len()
        invariant
            i <= returned@.len(),
            committed@.len() == returned@.len(),
            strictly_after(committed@, returned@, 0) == strictly_after(
                committed@,
                returned@,
                i as int,
            ),
        decreases returned.len() - i,
    {
        match relate(&committed[i].value, &returned[i].value) {
            Relation::Before => {
                return true;
            },
            Relation::Same => {},
            Relation::After => {
                return false;
            },
        }
        i += 1;
    }
    false
}

/// Checks that a returned position is usable and strictly after the committed one.
pub fn validate_strictly_after(committed: Option<&Cursor>, returned: &Cursor) -> (r: Result<
    (),
    CursorError,
>)
    ensures
        ({
            let failure = order_failure(
                match committed {
                    Some(cursor) => Some(cursor.fields@),
                    None => None,
                },
                returned.fields@,
            );
            match r {
                Ok(()) => failure is None,
                Err(error) => failure == Some(error),
            }
        }),
{
    if returned.fields.len() == 0 {
        return Err(CursorError::MissingColumn);
    }
    if let Some(error) = check_fields(&returned.fields) {
        return Err(error);
    }
    match committed {
        None => Ok(()),
        Some(cursor) => {
            if cursor.fields.len() != returned.fields.len() {
                return Err(CursorError::MissingColumn);
            }
            if let Some(error) = check_shape(&cursor.fields, &returned.fields) {
                return Err(error);
            }
            if !follows(&cursor.fields, &returned.fields) {
                return Err(CursorError::NotStrictlyOrdered);
            }
            Ok(())
        },
    }
}

proof fn lemma_bytes_before_irreflexive(a: Seq<u8>)
    ensures
        !bytes_before(a, a),
    decreases a.len(),
{
    if a.len() > 0 {
        lemma_bytes_before_irreflexive(a.drop_first());
    }
}

proof fn lemma_bytes_before_transitive(a: Seq<u8>, b: Seq<u8>, c: Seq<u8>)
    requires
        bytes_before(a, b),
        bytes_before(b, c),
    ensures
        bytes_before(a, c),
    decreases a.len(),
{
    if a.len() > 0 && a[0] == b[0] && b[0] == c[0] {
        lemma_bytes_before_transitive(a.drop_first(), b.drop_first(), c.drop_first());
    }
}

/// What relates a first value to a third through a second.
proof fn lemma_relates_transitive(a: CellValue, b: CellValue, c: CellValue)
    requires
        is_ordered(c),
        same_kind(a, b),
        same_kind(b, c),
        !(relates(a, b) is After),
        !(relates(b, c) is After),
    ensures
        relates(a, c) == if relates(a, b) is Same {
            relates(b, c)
        } else {
            Relation::Before
        },
{
    match (a, b, c) {
        (CellValue::String(x), CellValue::String(y), CellValue::String(z)) => {
            lemma_text_relates(x@, y@, z@);
        },
        (CellValue::Date(x), CellValue::Date(y), CellValue::Date(z)) => {
            lemma_text_relates(x@, y@, z@);
        },
        (CellValue::Timestamp(x), CellValue::Timestamp(y), CellValue::Timestamp(z)) => {
            lemma_text_relates(x@, y@, z@);
        },
        (CellValue::Bytes(x), CellValue::Bytes(y), CellValue::Bytes(z)) => {
            if bytes_before(x@, y@) && bytes_before(y@, z@) {
                lemma_bytes_before_transitive(x@, y@, z@);
                lemma_bytes_before_irreflexive(x@);
            }
        },
        _ => {},
    }
}

proof fn lemma_text_relates(x: Seq<char>, y: Seq<char>, z: Seq<char>)
    ensures
        names::before(x, y) && names::before(y, z) ==> names::before(x, z) && x != z,
{
    if names::before(x, y) && names::before(y, z) {
        names::lemma_before_transitive(x, y, z);
        names::lemma_before_irreflexive(x);
    }
}

proof fn lemma_shape_agrees(committed: Seq<CursorField>, returned: Seq<CursorField>, count: int)
    requires
        0 <= count <= returned.len(),
    ensures
        shape_failure(committed, returned.take(count)) is None <==> forall|i: int|
            0 <= i < count ==> (#[trigger] committed[i]).column@ == returned[i].column@ && same_kind(
                committed[i].value,
                returned[i].value,
            ),
    decreases count,
{
    if count > 0 {
        let part = returned.take(count);
        assert(part.drop_last() =~= returned.take(count - 1));
        assert(part[count - 1] == returned[count - 1]);
        lemma_shape_agrees(committed, returned, count - 1);
        let last = committed[count - 1];
        assert(shape_failure(committed, part) is None ==> last.column@ == returned[count
            - 1].column@);
    }
}

proof fn lemma_fields_ordered(fields: Seq<CursorField>, count: int)
    requires
        0 <= count <= fields.len(),
        field_failure(fields.take(count)) is None,
    ensures
        forall|i: int| 0 <= i < count ==> is_ordered((#[trigger] fields[i]).value),
    decreases count,
{
    if count > 0 {
        let part = fields.take(count);
        assert(part.drop_last() =~= fields.take(count - 1));
        assert(part.last() == fields[count - 1]);
        lemma_fields_ordered(fields, count - 1);
    }
}

proof fn lemma_not_after_itself(fields: Seq<CursorField>, from: int)
    ensures
        !strictly_after(fields, fields, from),
    decreases fields.len() - from,
{
    if 0 <= from < fields.len() {
        lemma_not_after_itself(fields, from + 1);
    }
}

proof fn lemma_after_transitive(
    first: Seq<CursorField>,
    second: Seq<CursorField>,
    third: Seq<CursorField>,
    from: int,
)
    requires
        first.len() == second.len() == third.len(),
        forall|i: int| 0 <= i < third.len() ==> is_ordered((#[trigger] third[i]).value),
        forall|i: int|
            0 <= i < third.len() ==> same_kind((#[trigger] first[i]).value, second[i].value),
        forall|i: int|
            0 <= i < third.len() ==> same_kind((#[trigger] second[i]).value, third[i].value),
        strictly_after(first, second, from),
        strictly_after(second, third, from),
    ensures
        strictly_after(first, third, from),
    decreases third.len() - from,
{
    lemma_relates_transitive(first[from].value, second[from].value, third[from].value);
    if relates(first[from].value, second[from].value) is Same && relates(
        second[from].value,
        third[from].value,
    ) is Same {
        lemma_after_transitive(first, second, third, from + 1);
    }
}

/// No position may be used after itself, so a page that brings nothing new is refused.
pub proof fn law_no_position_follows_itself(fields: Seq<CursorField>)
    ensures
        order_failure(Some(fields), fields) is Some,
{
    lemma_not_after_itself(fields, 0);
}

/// Progress never turns back: where a second position may be used after a first and a third
/// after the second, the third may be used after the first.
pub proof fn law_following_is_transitive(
    first: Seq<CursorField>,
    second: Seq<CursorField>,
    third: Seq<CursorField>,
)
    requires
        order_failure(Some(first), second) is None,
        order_failure(Some(second), third) is None,
    ensures
        order_failure(Some(first), third) is None,
{
    let count = third.len() as int;
    assert(second.take(count) =~= second);
    assert(third.take(count) =~= third);
    lemma_fields_ordered(third, count);
    lemma_shape_agrees(first, second, count);
    lemma_shape_agrees(second, third, count);
    assert forall|i: int| 0 <= i < count implies (#[trigger] first[i]).column@ == third[i].column@
        && same_kind(first[i].value, third[i].value) by {
        assert(first[i].column@ == second[i].column@);
        assert(second[i].column@ == third[i].column@);
    }
    lemma_shape_agrees(first, third, count);
    lemma_after_transitive(first, second, third, 0);
}

/// Bytes are ordered by their first difference: where they differ, by the smaller byte, and
/// where one ends, the shorter first.
pub proof fn law_bytes_are_ordered_by_their_first_difference(a: Seq<u8>, b: Seq<u8>, at: int)
    requires
        0 <= at <= a.len(),
        at <= b.len(),
        forall|i: int| 0 <= i < at ==> a[i] == b[i],
        at < a.len() && at < b.len() ==> a[at] != b[at],
    ensures
        at < a.len() && at < b.len() ==> (bytes_before(a, b) <==> a[at] < b[at]),
        at == a.len() ==> (bytes_before(a, b) <==> a.len() < b.len()),
        at == b.len() ==> !bytes_before(a, b),
    decreases at,
{
    if at > 0 {
        assert(a[0] == b[0]);
        let c = a.drop_first();
        let d = b.drop_first();
        assert forall|i: int| 0 <= i < at - 1 implies c[i] == d[i] by {
            assert(a[i + 1] == b[i + 1]);
        }
        law_bytes_are_ordered_by_their_first_difference(c, d, at - 1);
    }
}

/// Numbers relate as numbers, booleans with false first, and texts and bytes by their first
/// difference; equal values, and no others, are the same.
pub proof fn law_values_relate_as_their_kind_does(a: CellValue, b: CellValue)
    ensures
        match (a, b) {
            (CellValue::Int64(x), CellValue::Int64(y)) => (relates(a, b) is Before <==> x < y) && (
            relates(a, b) is Same <==> x == y) && (relates(a, b) is After <==> x > y),
            (CellValue::UInt64(x), CellValue::UInt64(y)) => (relates(a, b) is Before <==> x < y)
                && (relates(a, b) is Same <==> x == y) && (relates(a, b) is After <==> x > y),
            (CellValue::Bool(x), CellValue::Bool(y)) => (relates(a, b) is Before <==> !x && y) && (
            relates(a, b) is Same <==> x == y) && (relates(a, b) is After <==> x && !y),
            (CellValue::String(x), CellValue::String(y)) => (relates(a, b) is Same <==> x@ == y@)
                && (x@ != y@ ==> (relates(a, b) is Before <==> names::before(x@, y@))),
            (CellValue::Date(x), CellValue::Date(y)) => (relates(a, b) is Same <==> x@ == y@) && (x@
                != y@ ==> (relates(a, b) is Before <==> names::before(x@, y@))),
            (CellValue::Timestamp(x), CellValue::Timestamp(y)) => (relates(a, b) is Same <==> x@
                == y@) && (x@ != y@ ==> (relates(a, b) is Before <==> names::before(x@, y@))),
            (CellValue::Bytes(x), CellValue::Bytes(y)) => (relates(a, b) is Same <==> x@ == y@) && (
            x@ != y@ ==> (relates(a, b) is Before <==> bytes_before(x@, y@))),
            _ => relates(a, b) is After,
        },
{
}

/// A position is strictly after another exactly when, at the first column in which they
/// differ, its value is the greater.
pub proof fn law_positions_are_ordered_by_their_first_difference(
    committed: Seq<CursorField>,
    returned: Seq<CursorField>,
    from: int,
    at: int,
)
    requires
        committed.len() == returned.len(),
        0 <= from <= at < returned.len(),
        forall|i: int|
            from <= i < at ==> relates(
                (#[trigger] committed[i]).value,
                returned[i].value,
            ) is Same,
        !(relates(committed[at].value, returned[at].value) is Same),
    ensures
        strictly_after(committed, returned, from) <==> relates(
            committed[at].value,
            returned[at].value,
        ) is Before,
    decreases at - from,
{
    if from < at {
        assert(relates(committed[from].value, returned[from].value) is Same);
        law_positions_are_ordered_by_their_first_difference(committed, returned, from + 1, at);
    }
}

/// A position that differs in no column from another is not after it.
pub proof fn law_equal_positions_do_not_advance(
    committed: Seq<CursorField>,
    returned: Seq<CursorField>,
    from: int,
)
    requires
        committed.len() == returned.len(),
        0 <= from <= returned.len(),
        forall|i: int|
            from <= i < returned.len() ==> relates(
                (#[trigger] committed[i]).value,
                returned[i].value,
            ) is Same,
    ensures
        !strictly_after(committed, returned, from),
    decreases returned.len() - from,
{
    if from < returned.len() {
        assert(relates(committed[from].value, returned[from].value) is Same);
        law_equal_positions_do_not_advance(committed, returned, from + 1);
    }
}

/// A position can be used exactly when it has columns, each with a value of an ordered kind,
/// and, after a committed one, the same columns of the same kinds and a greater value where it
/// first differs.
pub proof fn law_usable_positions_are_complete_and_later(
    committed: Option<Seq<CursorField>>,
    returned: Seq<CursorField>,
)
    ensures
        order_failure(committed, returned) is None <==> returned.len() >= 1 && (forall|i: int|
            0 <= i < returned.len() ==> is_ordered((#[trigger] returned[i]).value)) && (
        committed matches Some(before) ==> before.len() == returned.len() && (forall|i: int|
            0 <= i < returned.len() ==> before[i].column@ == (#[trigger] returned[i]).column@
                && same_kind(before[i].value, returned[i].value)) && strictly_after(
            before,
            returned,
            0,
        )),
{
    lemma_no_field_fails(returned);
    if committed is Some {
        lemma_no_shape_fails(committed->0, returned);
    }
}

proof fn lemma_no_field_fails(fields: Seq<CursorField>)
    ensures
        field_failure(fields) is None <==> forall|i: int|
            0 <= i < fields.len() ==> is_ordered((#[trigger] fields[i]).value),
    decreases fields.len(),
{
    if fields.len() > 0 {
        let less = fields.drop_last();
        let last = fields.len() - 1;
        lemma_no_field_fails(less);
        assert(fields[last] == fields.last());
        if field_failure(less) is None {
            assert forall|i: int| 0 <= i < last implies is_ordered((#[trigger] fields[i]).value) by {
                assert(less[i] == fields[i]);
            }
        } else {
            let i = choose|i: int| 0 <= i < less.len() && !is_ordered((#[trigger] less[i]).value);
            assert(fields[i] == less[i]);
        }
    }
}

proof fn lemma_no_shape_fails(committed: Seq<CursorField>, returned: Seq<CursorField>)
    ensures
        shape_failure(committed, returned) is None <==> forall|i: int|
            0 <= i < returned.len() ==> committed[i].column@ == (#[trigger] returned[i]).column@
                && same_kind(committed[i].value, returned[i].value),
    decreases returned.len(),
{
    if returned.len() > 0 {
        let less = returned.drop_last();
        let last = returned.len() - 1;
        lemma_no_shape_fails(committed, less);
        if shape_failure(committed, less) is None {
            assert forall|i: int| 0 <= i < last implies committed[i].column@ == (
            #[trigger] returned[i]).column@ && same_kind(committed[i].value, returned[i].value) by {
                assert(less[i] == returned[i]);
            }
        } else {
            let i = choose|i: int|
                0 <= i < less.len() && !(committed[i].column@ == (#[trigger] less[i]).column@
                    && same_kind(committed[i].value, less[i].value));
            assert(returned[i] == less[i]);
        }
    }
}

/// Only booleans, integers, texts, bytes, dates and timestamps without an offset have an exact
/// order, and values are of one kind exactly when they are of the same variant.
pub proof fn law_ordered_kinds(a: CellValue, b: CellValue)
    ensures
        is_ordered(a) <==> match a {
            CellValue::Bool(_) | CellValue::Int64(_) | CellValue::UInt64(_) | CellValue::String(_)
            | CellValue::Bytes(_) | CellValue::Date(_) | CellValue::Timestamp(_) => true,
            _ => false,
        },
        is_ordered(a) && same_kind(a, b) ==> is_ordered(b),
        same_kind(a, b) <==> same_kind(b, a),
        same_kind(a, a),
        a is Int64 ==> (same_kind(a, b) <==> b is Int64),
        a is Timestamp ==> (same_kind(a, b) <==> b is Timestamp),
{
}

} // verus!
