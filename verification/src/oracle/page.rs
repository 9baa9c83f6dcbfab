//! One bounded page of an Oracle source.
//!
//! Rows come in one at a time. Each is normalized and either joins the page or ends it.

use crate::database::row;
use crate::database::row::{copy_columns, Cell, ColumnMetadata, Row};
use crate::oracle::error::OracleAdapterError;
use crate::oracle::timestamp;
use crate::oracle::timestamp::OracleTimestamp;
use crate::oracle::types::OracleType;
use crate::oracle::value;
use crate::oracle::value::{extract_cursor, normalize_row, NativeValue};
use crate::polling;
use crate::polling::{
    memory_bytes, text_capacity, CompositeWatermark, CursorRow, QueryPage,
};
use crate::text;
use vstd::prelude::*;

verus! {

/// A row of a page.
pub struct OracleRowModel {
    pub values: Seq<Cell>,
    pub timestamp: Seq<char>,
    pub tie_breaker: i64,
}

/// What a page under construction holds; `used` counts the bytes of its rows.
pub struct OraclePageModel {
    pub columns: Seq<ColumnMetadata>,
    pub types: Seq<OracleType>,
    pub max_rows: nat,
    pub limit: u64,
    pub rows: Seq<OracleRowModel>,
    pub used: u64,
    pub done: bool,
}

/// A page under construction.
pub struct OraclePage {
    columns: Vec<ColumnMetadata>,
    types: Vec<OracleType>,
    max_rows: usize,
    limit: u64,
    rows: Vec<CursorRow>,
    used: u64,
    done: bool,
}

/// A row of a page, read back from what the page holds.
pub open spec fn row_model(row: CursorRow) -> OracleRowModel {
    OracleRowModel {
        values: polling::cells(row.row.values@),
        timestamp: row.cursor.timestamp@,
        tie_breaker: row.cursor.tie_breaker,
    }
}

impl View for OraclePage {
    type V = OraclePageModel;

    closed spec fn view(&self) -> OraclePageModel {
        OraclePageModel {
            columns: self.columns@,
            types: self.types@,
            max_rows: self.max_rows as nat,
            limit: self.limit,
            rows: self.rows@.map_values(|row: CursorRow| row_model(row)),
            used: self.used,
            done: self.done,
        }
    }
}

/// The bytes of a page without rows.
pub open spec fn empty_bytes() -> u64 {
    row::saturated(vstd::layout::size_of::<Vec<CursorRow>>() as int)
}

/// The bytes that a row's slot takes beyond the row's header, which its own size counts.
pub open spec fn slot_bytes() -> u64 {
    let slot = vstd::layout::size_of::<CursorRow>();
    let header = vstd::layout::size_of::<Row>();
    if slot > header {
        row::saturated(slot - header)
    } else {
        0
    }
}

/// The bytes of a page after one more row, given what its cursor text has allocated.
pub open spec fn grown(used: u64, values: Seq<Cell>, capacity: usize) -> u64 {
    let cost = row::saturated(polling::row_memory(values) + capacity);
    row::saturated(row::saturated(used + cost) + slot_bytes())
}

/// The page after a row joined it.
pub open spec fn joined(page: OraclePageModel, row: OracleRowModel, used: u64) -> OraclePageModel {
    OraclePageModel { rows: page.rows.push(row), used, ..page }
}

/// The invariant of a page: rows within their number and byte budget, each with a value for
/// each column.
pub open spec fn page_valid(page: OraclePageModel) -> bool {
    &&& page.rows.len() <= page.max_rows
    &&& page.rows.len() > 0 ==> page.used <= page.limit
    &&& page.columns.len() == page.types.len()
    &&& forall|i: int|
        0 <= i < page.rows.len() ==> (#[trigger] page.rows[i]).values.len() == page.types.len()
}

/// What comes of offering a row to a page: it joins, it ends the page, or it alone is too
/// large for any page.
pub open spec fn offered(
    result: Result<bool, OracleAdapterError>,
    before: OraclePageModel,
    after: OraclePageModel,
    row: OracleRowModel,
    capacity: usize,
) -> bool {
    let used = grown(before.used, row.values, capacity);
    if used <= before.limit {
        result == Ok::<bool, OracleAdapterError>(true) && after == joined(before, row, used)
    } else if before.rows.len() == 0 {
        after == before && result == Err::<bool, OracleAdapterError>(
            OracleAdapterError::NormalizedByteLimit {
                normalized_bytes: polling::row_memory(row.values),
                limit: before.limit,
            },
        )
    } else {
        result == Ok::<bool, OracleAdapterError>(false) && after == (OraclePageModel {
            done: true,
            ..before
        })
    }
}

impl OraclePage {
    /// Starts a page for columns of some types.
    pub fn new(
        columns: &Vec<ColumnMetadata>,
        types: Vec<OracleType>,
        max_rows: usize,
        limit: u64,
    ) -> (r: Self)
        requires
            columns@.len() == types@.len(),
        ensures
            r@ == (OraclePageModel {
                columns: columns@,
                types: types@,
                max_rows: max_rows as nat,
                limit,
                rows: Seq::empty(),
                used: empty_bytes(),
                done: false,
            }),
            page_valid(r@),
    {
        let header: u64 = core::mem::size_of::<Vec<CursorRow>>() as u64;
        let r = OraclePage {
            columns: copy_columns(columns),
            types,
            max_rows,
            limit,
            rows: Vec::new(),
            used: header,
            done: false,
        };
        assert(r@.rows =~= Seq::empty());
        r
    }

    /// Whether one more row is wanted.
    pub fn wants_row(&self) -> (found: bool)
        ensures
            found == (!self@.done && self@.rows.len() < self@.max_rows),
    {
        !self.done && self.rows.len() < self.max_rows
    }

    /// Takes note that the source has no more rows.
    pub fn end(&mut self)
        requires
            page_valid(old(self)@),
        ensures
            final(self)@ == (OraclePageModel { done: true, ..old(self)@ }),
            page_valid(final(self)@),
    {
        let ghost before = self@;
        self.done = true;
        assert(self@.rows =~= before.rows);
    }

    /// Offers a row to the page, with its cursor columns. `Ok(true)` asks for the next one,
    /// `Ok(false)` ends the page: later rows come with the next poll.
    pub fn accept(
        &mut self,
        values: Vec<NativeValue>,
        timestamp: Option<OracleTimestamp>,
        tie_breaker: Option<i64>,
        watermark: &CompositeWatermark,
    ) -> (r: Result<bool, OracleAdapterError>)
        requires
            page_valid(old(self)@),
            old(self)@.rows.len() < old(self)@.max_rows,
            value::row_suits(old(self)@.types, values@),
        ensures
            page_valid(final(self)@),
            match r {
                Err(OracleAdapterError::NullCursorValue(column)) => {
                    &&& timestamp is None || tie_breaker is None
                    &&& final(self)@ == old(self)@
                    &&& column == if timestamp is None {
                        watermark.timestamp_column
                    } else {
                        watermark.tie_breaker_column
                    }
                },
                Err(OracleAdapterError::NonFiniteFloat) => {
                    &&& timestamp is Some && tie_breaker is Some
                    &&& final(self)@ == old(self)@
                    &&& exists|i: int|
                        0 <= i < values@.len() && value::normal_cell(
                            old(self)@.types[i],
                            #[trigger] values@[i],
                        ) is None
                },
                _ => timestamp is Some && tie_breaker is Some && exists|
                    row: OracleRowModel,
                    capacity: usize,
                | #[trigger]
                    offered(r, old(self)@, final(self)@, row, capacity) && value::is_normal(
                        row.values,
                        old(self)@.types,
                        values@,
                    ) && row.timestamp == timestamp::timestamp_text(timestamp->0)
                        && row.tie_breaker == tie_breaker->0 && capacity >= text::bytes_in(
                        row.timestamp,
                    ),
            },
            (timestamp is None || tie_breaker is None) ==> r is Err && r->Err_0 is NullCursorValue,
    {
        let ghost before = self@;
        let cursor = match extract_cursor(timestamp, tie_breaker, watermark) {
            Ok(cursor) => cursor,
            Err(error) => {
                return Err(error);
            },
        };
        let row = match normalize_row(&self.types, values) {
            Ok(row) => row,
            Err(error) => {
                return Err(error);
            },
        };
        let capacity: usize = text_capacity(&cursor.timestamp);
        let joining = CursorRow { row, cursor };
        let ghost model = row_model(joining);
        let r = self.take_row(joining, capacity);
        assert(offered(r, before, self@, model, capacity));
        r
    }

    /// Lets a normalized row join the page when it fits, given what its cursor text has
    /// allocated.
    pub fn take_row(&mut self, row: CursorRow, capacity: usize) -> (r: Result<
        bool,
        OracleAdapterError,
    >)
        requires
            page_valid(old(self)@),
            old(self)@.rows.len() < old(self)@.max_rows,
            row.row.values@.len() == old(self)@.types.len(),
        ensures
            page_valid(final(self)@),
            offered(r, old(self)@, final(self)@, row_model(row), capacity),
    {
        let ghost before = self@;
        let ghost model = row_model(row);
        let size: u64 = memory_bytes(&row.row);
        let cost: u64 = size.saturating_add(capacity as u64);
        let slot: usize = core::mem::size_of::<CursorRow>();
        let header: usize = core::mem::size_of::<Row>();
        let extra: u64 = if slot > header {
            (slot - header) as u64
        } else {
            0
        };
        let used: u64 = self.used.saturating_add(cost).saturating_add(extra);
        assert(used == grown(before.used, model.values, capacity));
        if used > self.limit {
            if self.rows.len() == 0 {
                return Err(
                    OracleAdapterError::NormalizedByteLimit {
                        normalized_bytes: size,
                        limit: self.limit,
                    },
                );
            }
            self.done = true;
            assert(self@.rows =~= before.rows);
            return Ok(false);
        }
        self.used = used;
        self.rows.push(row);
        assert(self@.rows =~= before.rows.push(model));
        Ok(true)
    }

    /// Completes the page.
    pub fn finish(self) -> (page: QueryPage)
        ensures
            page.columns@ == self@.columns,
            page.rows@.map_values(|row: CursorRow| row_model(row)) == self@.rows,
    {
        QueryPage { columns: self.columns, rows: self.rows }
    }
}

/// A row that fits keeps every bound of the page.
pub proof fn law_joining_keeps_the_page_valid(
    page: OraclePageModel,
    row: OracleRowModel,
    capacity: usize,
)
    requires
        page_valid(page),
        page.rows.len() < page.max_rows,
        row.values.len() == page.types.len(),
        grown(page.used, row.values, capacity) <= page.limit,
    ensures
        page_valid(joined(page, row, grown(page.used, row.values, capacity))),
{
}

/// No row is skipped: a row that does not fit ends the page, and one that fits no page fails
/// the poll.
pub proof fn law_no_row_is_skipped(
    result: Result<bool, OracleAdapterError>,
    before: OraclePageModel,
    after: OraclePageModel,
    row: OracleRowModel,
    capacity: usize,
)
    requires
        offered(result, before, after, row, capacity),
    ensures
        result == Ok::<bool, OracleAdapterError>(true) ==> after.rows == before.rows.push(row),
        result == Ok::<bool, OracleAdapterError>(false) ==> after.done && after.rows == before.rows
            && before.rows.len() > 0,
        result is Err ==> before.rows.len() == 0 && after == before,
{
}

/// One more row adds its memory, what its cursor's text has allocated and its slot, as far as
/// they can be counted.
pub proof fn law_pages_grow_by_what_a_row_takes(used: u64, values: Seq<Cell>, capacity: usize)
    ensures
        grown(used, values, capacity) >= used,
        grown(used, values, capacity) < u64::MAX ==> grown(used, values, capacity) - used
            == polling::row_memory(values) + capacity + slot_bytes(),
{
}

/// A row is taken exactly when the page with it stays within its bytes; the first row that does
/// not fit ends the page, and one that no page could hold is reported with its size and the
/// limit.
pub proof fn law_rows_are_taken_while_they_fit(
    result: Result<bool, OracleAdapterError>,
    before: OraclePageModel,
    after: OraclePageModel,
    row: OracleRowModel,
    capacity: usize,
)
    requires
        offered(result, before, after, row, capacity),
    ensures
        result == Ok::<bool, OracleAdapterError>(true) <==> grown(
            before.used,
            row.values,
            capacity,
        ) <= before.limit,
        result == Ok::<bool, OracleAdapterError>(true) ==> after == (OraclePageModel {
            rows: before.rows + seq![row],
            used: grown(before.used, row.values, capacity),
            ..before
        }),
        result == Ok::<bool, OracleAdapterError>(false) <==> grown(
            before.used,
            row.values,
            capacity,
        ) > before.limit && before.rows.len() > 0,
        result == Ok::<bool, OracleAdapterError>(false) ==> after == (OraclePageModel {
            done: true,
            ..before
        }),
        result matches Err(error) ==> error == (OracleAdapterError::NormalizedByteLimit {
            normalized_bytes: polling::row_memory(row.values),
            limit: before.limit,
        }) && before.rows.len() == 0,
{
    assert(before.rows.push(row) =~= before.rows + seq![row]);
}

} // verus!
