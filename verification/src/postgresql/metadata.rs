//! Validation of a prepared statement's result columns.

use crate::database::row::ColumnMetadata;
use crate::polling::CompositeWatermark;
use crate::postgresql::error::PgError;
use crate::postgresql::value::{supported, PgType};
use crate::text;
use crate::text::{same, same_but_case};
use vstd::prelude::*;

verus! {

/// A result column as the server describes it.
pub struct DescribedColumn {
    /// Its name.
    pub name: String,
    /// Its type.
    pub ty: PgType,
    /// Its type's name.
    pub source_type: String,
    /// Whether the catalog says that it is never NULL; absent where the catalog was not
    /// asked or did not say.
    pub not_null: Option<bool>,
}

/// A result column as the server describes it.
pub struct ColumnModel {
    pub name: Seq<char>,
    pub ty: PgType,
    pub source_type: Seq<char>,
    pub not_null: Option<bool>,
}

impl View for DescribedColumn {
    type V = ColumnModel;

    open spec fn view(&self) -> ColumnModel {
        ColumnModel {
            name: self.name@,
            ty: self.ty,
            source_type: self.source_type@,
            not_null: self.not_null,
        }
    }
}

/// The result columns as the server describes them.
pub open spec fn models(columns: Seq<DescribedColumn>) -> Seq<ColumnModel> {
    columns.map_values(|column: DescribedColumn| column@)
}

/// Whether a column's name occurs before it, in any case.
pub open spec fn repeats(columns: Seq<ColumnModel>, index: int) -> bool {
    exists|j: int|
        0 <= j < index && text::same_ignoring_case(
            (#[trigger] columns[j]).name,
            columns[index].name,
        )
}

/// Why one column cannot be returned, if it cannot. The cursor's columns are never NULL,
/// one a timestamp and one an integer.
pub open spec fn column_failure(
    columns: Seq<ColumnModel>,
    index: int,
    timestamp: Seq<char>,
    tie_breaker: Seq<char>,
) -> Option<PgError> {
    let column = columns[index];
    let is_timestamp = column.name == timestamp;
    let is_tie_breaker = column.name == tie_breaker;
    if repeats(columns, index) {
        Some(PgError::Metadata)
    } else if column.ty is Other {
        Some(PgError::UnsupportedType)
    } else if (is_timestamp || is_tie_breaker) && column.not_null != Some(true) {
        Some(PgError::Metadata)
    } else if is_timestamp && !(column.ty is Timestamp || column.ty is TimestampTz) {
        Some(PgError::Metadata)
    } else if is_tie_breaker && !(column.ty is Int2 || column.ty is Int4 || column.ty is Int8) {
        Some(PgError::Metadata)
    } else {
        None
    }
}

/// Why the first of `count` columns that cannot be returned cannot, if one cannot.
pub open spec fn columns_failure(
    columns: Seq<ColumnModel>,
    count: nat,
    timestamp: Seq<char>,
    tie_breaker: Seq<char>,
) -> Option<PgError>
    decreases count,
{
    if count == 0 {
        None
    } else {
        match columns_failure(columns, (count - 1) as nat, timestamp, tie_breaker) {
            Some(error) => Some(error),
            None => column_failure(columns, count - 1, timestamp, tie_breaker),
        }
    }
}

/// Whether a column of a name is at an index.
pub open spec fn stands_at(columns: Seq<ColumnModel>, name: Seq<char>, index: int) -> bool {
    0 <= index < columns.len() && columns[index].name == name
}

/// The metadata of a result column. Only the cursor's columns are known not to be NULL.
pub open spec fn is_described(
    metadata: ColumnMetadata,
    column: ColumnModel,
    timestamp: Seq<char>,
    tie_breaker: Seq<char>,
) -> bool {
    &&& metadata.name@ == column.name
    &&& metadata.source_type@ == column.source_type
    &&& metadata.nullable == (column.name != timestamp && column.name != tie_breaker)
}

/// Whether a column is one of the cursor's, whose nullability the catalog has to tell.
pub fn is_cursor_column(name: &str, watermark: &CompositeWatermark) -> (found: bool)
    ensures
        found == (name@ == watermark.timestamp_column@ || name@ == watermark.tie_breaker_column@),
{
    same(name, watermark.timestamp_column.as_str()) || same(
        name,
        watermark.tie_breaker_column.as_str(),
    )
}

fn occurs_before(columns: &Vec<DescribedColumn>, index: usize) -> (found: bool)
    requires
        index < columns@.len(),
    ensures
        found == repeats(models(columns@), index as int),
{
    let ghost all = models(columns@);
    let mut j: usize = 0;
    while j < index
        invariant
            j <= index < columns@.len(),
            all == models(columns@),
            forall|k: int|
                0 <= k < j ==> !text::same_ignoring_case(
                    (#[trigger] all[k]).name,
                    all[index as int].name,
                ),
        decreases index - j,
    {
        assert(all[j as int] == columns@[j as int]@);
        assert(all[index as int] == columns@[index as int]@);
        if same_but_case(columns[j].name.as_str(), columns[index].name.as_str()) {
            assert(text::same_ignoring_case(all[j as int].name, all[index as int].name));
            return true;
        }
        j += 1;
    }
    false
}

fn check_column(
    columns: &Vec<DescribedColumn>,
    index: usize,
    timestamp: &str,
    tie_breaker: &str,
) -> (r: Result<(), PgError>)
    requires
        index < columns@.len(),
    ensures
        ({
            let failure = column_failure(
                models(columns@),
                index as int,
                timestamp@,
                tie_breaker@,
            );
            match r {
                Ok(()) => failure is None,
                Err(error) => failure == Some(error),
            }
        }),
{
    let column = &columns[index];
    assert(models(columns@)[index as int] == column@);
    if occurs_before(columns, index) {
        return Err(PgError::Metadata);
    }
    if !supported(column.ty) {
        return Err(PgError::UnsupportedType);
    }
    let is_timestamp: bool = same(column.name.as_str(), timestamp);
    let is_tie_breaker: bool = same(column.name.as_str(), tie_breaker);
    let not_null: bool = match column.not_null {
        Some(not_null) => not_null,
        None => false,
    };
    if (is_timestamp || is_tie_breaker) && !not_null {
        return Err(PgError::Metadata);
    }
    if is_timestamp {
        match column.ty {
            PgType::Timestamp => {},
            PgType::TimestampTz => {},
            _ => {
                return Err(PgError::Metadata);
            },
        }
    }
    if is_tie_breaker {
        match column.ty {
            PgType::Int2 => {},
            PgType::Int4 => {},
            PgType::Int8 => {},
            _ => {
                return Err(PgError::Metadata);
            },
        }
    }
    Ok(())
}

proof fn lemma_columns_failure(
    columns: Seq<ColumnModel>,
    count: nat,
    all: nat,
    timestamp: Seq<char>,
    tie_breaker: Seq<char>,
)
    requires
        count <= all,
        columns_failure(columns, count, timestamp, tie_breaker) is Some,
    ensures
        columns_failure(columns, all, timestamp, tie_breaker) == columns_failure(
            columns,
            count,
            timestamp,
            tie_breaker,
        ),
    decreases all,
{
    if count < all {
        lemma_columns_failure(columns, count, (all - 1) as nat, timestamp, tie_breaker);
    }
}

/// Checks a prepared statement's result columns and finds the cursor's among them.
pub fn metadata(columns: &Vec<DescribedColumn>, watermark: &CompositeWatermark) -> (r: Result<
    (Vec<ColumnMetadata>, (usize, usize)),
    PgError,
>)
    ensures
        ({
            let all = models(columns@);
            let timestamp = watermark.timestamp_column@;
            let tie_breaker = watermark.tie_breaker_column@;
            let failure = columns_failure(all, all.len(), timestamp, tie_breaker);
            let present = (exists|i: int| #[trigger] stands_at(all, timestamp, i)) && (exists|i: int|
             #[trigger]
                stands_at(all, tie_breaker, i));
            match r {
                Ok((described, indices)) => {
                    &&& failure is None
                    &&& stands_at(all, timestamp, indices.0 as int)
                    &&& stands_at(all, tie_breaker, indices.1 as int)
                    &&& described@.len() == all.len()
                    &&& forall|i: int|
                        0 <= i < all.len() ==> is_described(
                            #[trigger] described@[i],
                            all[i],
                            timestamp,
                            tie_breaker,
                        )
                },
                Err(error) => if failure is Some {
                    failure == Some(error)
                } else {
                    error == PgError::Metadata && !present
                },
            }
        }),
{
    let timestamp = watermark.timestamp_column.as_str();
    let tie_breaker = watermark.tie_breaker_column.as_str();
    let ghost all = models(columns@);
    let mut described: Vec<ColumnMetadata> = Vec::new();
    let mut at_timestamp: Option<usize> = None;
    let mut at_tie_breaker: Option<usize> = None;
    let mut i: usize = 0;
    while i < columns.len()
        invariant
            i <= columns@.len(),
            all == models(columns@),
            timestamp@ == watermark.timestamp_column@,
            tie_breaker@ == watermark.tie_breaker_column@,
            columns_failure(all, i as nat, timestamp@, tie_breaker@) is None,
            described@.len() == i,
            forall|j: int|
                0 <= j < i ==> is_described(
                    #[trigger] described@[j],
                    all[j],
                    timestamp@,
                    tie_breaker@,
                ),
            match at_timestamp {
                Some(index) => stands_at(all, timestamp@, index as int),
                None => forall|j: int| 0 <= j < i ==> !#[trigger] stands_at(all, timestamp@, j),
            },
            match at_tie_breaker {
                Some(index) => stands_at(all, tie_breaker@, index as int),
                None => forall|j: int| 0 <= j < i ==> !#[trigger] stands_at(all, tie_breaker@, j),
            },
        decreases columns.len() - i,
    {
        assert(all[i as int] == columns@[i as int]@);
        match check_column(columns, i, timestamp, tie_breaker) {
            Err(error) => {
                proof {
                    lemma_columns_failure(
                        all,
                        (i + 1) as nat,
                        all.len(),
                        timestamp@,
                        tie_breaker@,
                    );
                }
                return Err(error);
            },
            Ok(()) => {},
        }
        let column = &columns[i];
        let is_timestamp: bool = same(column.name.as_str(), timestamp);
        let is_tie_breaker: bool = same(column.name.as_str(), tie_breaker);
        if is_timestamp {
            at_timestamp = Some(i);
        }
        if is_tie_breaker {
            at_tie_breaker = Some(i);
        }
        described.push(
            ColumnMetadata {
                name: column.name.clone(),
                source_type: column.source_type.clone(),
                nullable: !is_timestamp && !is_tie_breaker,
            },
        );
        i += 1;
    }
    match (at_timestamp, at_tie_breaker) {
        (Some(first), Some(second)) => Ok((described, (first, second))),
        _ => {
            assert(forall|j: int| stands_at(all, timestamp@, j) ==> 0 <= j < all.len());
            assert(forall|j: int| stands_at(all, tie_breaker@, j) ==> 0 <= j < all.len());
            Err(PgError::Metadata)
        },
    }
}

/// Columns that are accepted have distinct names, so that each cursor column is the only
/// one of its name.
pub proof fn law_accepted_columns_are_distinct(
    columns: Seq<ColumnModel>,
    timestamp: Seq<char>,
    tie_breaker: Seq<char>,
    i: int,
    j: int,
)
    requires
        columns_failure(columns, columns.len(), timestamp, tie_breaker) is None,
        0 <= i < j < columns.len(),
    ensures
        !text::same_ignoring_case(columns[i].name, columns[j].name),
{
    lemma_column_accepted(columns, columns.len(), timestamp, tie_breaker, j);
    assert(!repeats(columns, j));
}

proof fn lemma_column_accepted(
    columns: Seq<ColumnModel>,
    count: nat,
    timestamp: Seq<char>,
    tie_breaker: Seq<char>,
    index: int,
)
    requires
        columns_failure(columns, count, timestamp, tie_breaker) is None,
        0 <= index < count,
    ensures
        column_failure(columns, index, timestamp, tie_breaker) is None,
    decreases count,
{
    if index < count - 1 {
        lemma_column_accepted(columns, (count - 1) as nat, timestamp, tie_breaker, index);
    }
}

/// Columns are accepted exactly when no two are spelt alike but for case, every type is
/// supported, and a column of the cursor is never NULL and is a timestamp or an integer, as it
/// has to be.
pub proof fn law_accepted_columns_can_be_polled(
    columns: Seq<ColumnModel>,
    count: nat,
    timestamp: Seq<char>,
    tie_breaker: Seq<char>,
)
    requires
        count <= columns.len(),
    ensures
        columns_failure(columns, count, timestamp, tie_breaker) is None <==> (forall|i: int|
            0 <= i < count ==> can_be_polled(#[trigger] columns[i], timestamp, tie_breaker)) && (
        forall|i: int, j: int|
            0 <= i < j < count ==> !text::spells_alike(
                (#[trigger] columns[i]).name,
                (#[trigger] columns[j]).name,
            )),
    decreases count,
{
    if count > 0 {
        let last = count - 1;
        law_accepted_columns_can_be_polled(columns, last as nat, timestamp, tie_breaker);
        assert forall|i: int| 0 <= i < last implies text::same_ignoring_case(
            (#[trigger] columns[i]).name,
            columns[last].name,
        ) == text::spells_alike(columns[i].name, columns[last].name) by {
            text::law_case_is_all_that_is_ignored(columns[i].name, columns[last].name);
        }
        if columns_failure(columns, count, timestamp, tie_breaker) is None {
            assert(!repeats(columns, last));
            assert(can_be_polled(columns[last], timestamp, tie_breaker));
        } else if columns_failure(columns, last as nat, timestamp, tie_breaker) is None {
            if repeats(columns, last) {
                let j = choose|j: int|
                    0 <= j < last && text::same_ignoring_case(
                        (#[trigger] columns[j]).name,
                        columns[last].name,
                    );
                assert(text::spells_alike(columns[j].name, columns[last].name));
            } else {
                assert(!can_be_polled(columns[last], timestamp, tie_breaker));
            }
        }
    }
}

/// Whether a column is of a supported type and, where it is one of the cursor's, fit for it.
pub open spec fn can_be_polled(
    column: ColumnModel,
    timestamp: Seq<char>,
    tie_breaker: Seq<char>,
) -> bool {
    &&& !(column.ty is Other)
    &&& column.name == timestamp ==> column.not_null == Some(true) && (column.ty is Timestamp
        || column.ty is TimestampTz)
    &&& column.name == tie_breaker ==> column.not_null == Some(true) && (column.ty is Int2
        || column.ty is Int4 || column.ty is Int8)
}

/// A column stands at an index exactly when it is the result's column there and has that name.
pub proof fn law_columns_stand_under_their_names(
    columns: Seq<ColumnModel>,
    name: Seq<char>,
    index: int,
)
    ensures
        stands_at(columns, name, index) <==> index >= 0 && index < columns.len() && name
            == columns[index].name,
{
}

/// What is told of a column is its own name and type; it may be NULL unless it is one of the
/// cursor's two.
pub proof fn law_columns_are_described_as_they_are(
    metadata: ColumnMetadata,
    column: ColumnModel,
    timestamp: Seq<char>,
    tie_breaker: Seq<char>,
)
    requires
        is_described(metadata, column, timestamp, tie_breaker),
    ensures
        metadata.name@ == column.name,
        metadata.source_type@ == column.source_type,
        metadata.nullable <==> !(column.name == timestamp || column.name == tie_breaker),
{
}

} // verus!
