//! One bounded page of a PostgreSQL source, read in cursor order.
//!
//! The server's rows come in one at a time. Each is checked against the validated
//! schema, decoded within the byte budget, held against the cursor order, and then
//! either joins the page or ends it.

use crate::calendar;
use crate::calendar::{format_micros, Moment};
use crate::database::row;
use crate::database::row::{Cell, CellValue, ColumnMetadata, Row};
use crate::polling;
use crate::polling::{
    frame_bytes, memory_bytes, text_capacity, CompositeCursor, CursorRow, QueryPage,
};
use crate::postgresql::error::PgError;
use crate::postgresql::timestamp;
use crate::postgresql::timestamp::parse_timestamp;
use crate::postgresql::value;
use crate::postgresql::value::{decode, PgType};
use crate::text;
use crate::text::same;
use vstd::prelude::*;

verus! {

/// One value as the server sent it, under the column it came in.
pub struct RawCell<'a> {
    /// The column's name.
    pub name: &'a str,
    /// The column's type name.
    pub source_type: &'a str,
    /// The column's type.
    pub ty: PgType,
    /// The value's bytes; absent for NULL.
    pub raw: Option<&'a [u8]>,
}

/// A value as the server sent it.
pub struct RawModel {
    pub name: Seq<char>,
    pub source_type: Seq<char>,
    pub ty: PgType,
    pub raw: Option<Seq<u8>>,
}

impl<'a> View for RawCell<'a> {
    type V = RawModel;

    open spec fn view(&self) -> RawModel {
        RawModel {
            name: self.name@,
            source_type: self.source_type@,
            ty: self.ty,
            raw: match self.raw {
                Some(raw) => Some(raw@),
                None => None,
            },
        }
    }
}

/// The values of a row as the server sent them.
pub open spec fn raw_row(raw: Seq<RawCell<'_>>) -> Seq<RawModel> {
    raw.map_values(|cell: RawCell<'_>| cell@)
}

/// Decoded values and the bytes they take so far.
pub struct Decoded {
    pub values: Seq<Cell>,
    pub bytes: u64,
}

/// The first `count` values of a row, decoded in order. Each must stand under the column
/// that was validated, and all together within `limit` bytes.
pub open spec fn decoded_values(
    raw: Seq<RawModel>,
    columns: Seq<ColumnMetadata>,
    limit: u64,
    count: nat,
) -> Result<Decoded, PgError>
    decreases count,
{
    if count == 0 {
        let bytes = row::saturated(polling::row_frame(raw.len()) as int);
        if bytes > limit {
            Err(PgError::RowTooLarge)
        } else {
            Ok(Decoded { values: Seq::empty(), bytes })
        }
    } else {
        match decoded_values(raw, columns, limit, (count - 1) as nat) {
            Err(error) => Err(error),
            Ok(before) => {
                let cell = raw[count - 1];
                if cell.name != columns[count - 1].name@ || cell.source_type
                    != columns[count - 1].source_type@ {
                    Err(PgError::Metadata)
                } else {
                    match value::decoded(cell.ty, cell.raw, (limit - before.bytes) as u64) {
                        Err(error) => Err(error),
                        Ok(value) => {
                            let bytes = row::saturated(before.bytes + row::cell_size(value));
                            if bytes > limit {
                                Err(PgError::RowTooLarge)
                            } else {
                                Ok(Decoded { values: before.values.push(value), bytes })
                            }
                        },
                    }
                }
            },
        }
    }
}

/// A whole row, decoded.
pub open spec fn decoded_row(
    raw: Seq<RawModel>,
    columns: Seq<ColumnMetadata>,
    limit: u64,
) -> Result<Seq<Cell>, PgError> {
    if raw.len() != columns.len() {
        Err(PgError::Metadata)
    } else {
        match decoded_values(raw, columns, limit, raw.len()) {
            Ok(all) => Ok(all.values),
            Err(error) => Err(error),
        }
    }
}

/// A position in the source.
pub struct Position {
    pub moment: Moment,
    pub id: i64,
}

/// Whether `a` is strictly before `b`: by timestamp, then by tie-breaker.
pub open spec fn advances(a: Position, b: Position) -> bool {
    &&& calendar::not_after(a.moment, b.moment)
    &&& a.moment == b.moment ==> a.id < b.id
}

/// The position of a decoded row, if its cursor values are present and readable.
pub open spec fn row_position(values: Seq<Cell>, indices: (usize, usize)) -> Option<Position> {
    let moment = match values[indices.0 as int] {
        Cell::Timestamp(value) => timestamp::cursor_moment(value),
        Cell::TimestampTz(value) => timestamp::cursor_moment(value),
        _ => None,
    };
    match (moment, values[indices.1 as int]) {
        (Some(moment), Cell::Int64(id)) => Some(Position { moment, id }),
        _ => None,
    }
}

/// A row of a page: its values, its position, and the cursor that stands for that position.
pub struct RowModel {
    pub values: Seq<Cell>,
    pub position: Position,
    pub timestamp: Seq<char>,
    pub tie_breaker: i64,
}

/// A row that may join a page after `previous`, or why it may not.
pub open spec fn candidate(
    raw: Seq<RawModel>,
    columns: Seq<ColumnMetadata>,
    indices: (usize, usize),
    limit: u64,
    previous: Position,
) -> Result<RowModel, PgError> {
    match decoded_row(raw, columns, limit) {
        Err(error) => Err(error),
        Ok(values) => match row_position(values, indices) {
            None => Err(PgError::Cursor),
            Some(position) => if !advances(previous, position) {
                Err(PgError::Cursor)
            } else {
                match calendar::micros_text(position.moment) {
                    Some(timestamp) => Ok(
                        RowModel { values, position, timestamp, tie_breaker: position.id },
                    ),
                    None => Err(PgError::Cursor),
                }
            },
        },
    }
}

/// The position that a cursor stands for, if its text can be read.
pub open spec fn start_of(timestamp: Seq<char>, tie_breaker: i64) -> Option<Position> {
    match timestamp::cursor_moment(timestamp) {
        Some(moment) => Some(Position { moment, id: tie_breaker }),
        None => None,
    }
}

/// Whether a row's cursor, read back, gives the row's own position.
pub open spec fn resumes(row: RowModel) -> bool {
    calendar::is_plain(row.position.moment) ==> start_of(row.timestamp, row.tie_breaker) == Some(
        row.position,
    )
}

/// What a page under construction holds. `slots` counts the rows it has room for before it
/// grows, and `used` the bytes of its rows and slots.
pub struct PageModel {
    pub columns: Seq<ColumnMetadata>,
    pub indices: (usize, usize),
    pub max_rows: nat,
    pub fetch_size: nat,
    pub limit: u64,
    pub start: Position,
    pub rows: Seq<RowModel>,
    pub costs: Seq<u64>,
    pub slots: nat,
    pub used: nat,
    pub done: bool,
}

/// The position that the next row has to be after.
pub open spec fn last_position(page: PageModel) -> Position {
    if page.rows.len() == 0 {
        page.start
    } else {
        page.rows.last().position
    }
}

/// The bytes of one slot.
pub open spec fn slot_bytes() -> nat {
    vstd::layout::size_of::<CursorRow>()
}

/// By how many slots a page grows when it has no room: it doubles, from one.
pub open spec fn growth(page: PageModel) -> nat {
    if page.rows.len() < page.slots {
        0
    } else if page.slots == 0 {
        1
    } else {
        page.slots
    }
}

/// The bytes that a row adds: its memory and what its cursor text has allocated.
pub open spec fn row_cost(values: Seq<Cell>, capacity: usize) -> u64 {
    row::saturated(polling::row_memory(values) + capacity)
}

/// Whether a row still fits the byte budget.
pub open spec fn fits(page: PageModel, cost: u64) -> bool {
    page.used + cost + growth(page) * slot_bytes() <= page.limit
}

/// The page after a row joined it.
pub open spec fn joined(page: PageModel, row: RowModel, cost: u64) -> PageModel {
    PageModel {
        rows: page.rows.push(row),
        costs: page.costs.push(cost),
        slots: page.slots + growth(page),
        used: page.used + cost as nat + growth(page) * slot_bytes(),
        ..page
    }
}

/// The sum of costs.
pub open spec fn total(costs: Seq<u64>) -> nat
    decreases costs.len(),
{
    if costs.len() == 0 {
        0
    } else {
        total(costs.drop_last()) + costs.last() as nat
    }
}

/// The invariant of a page: rows within their number and byte budget, in strictly ascending
/// order after the start, each with the cursor of its own position.
pub open spec fn page_valid(page: PageModel) -> bool {
    &&& page.rows.len() <= page.max_rows
    &&& page.rows.len() <= page.slots <= 2 * page.rows.len()
    &&& page.costs.len() == page.rows.len()
    &&& page.used == total(page.costs) + page.slots * slot_bytes()
    &&& page.used <= page.limit
    &&& page.indices.0 < page.columns.len()
    &&& page.indices.1 < page.columns.len()
    &&& forall|i: int|
        0 <= i < page.rows.len() ==> advances(page.start, (#[trigger] page.rows[i]).position)
            && calendar::micros_text(page.rows[i].position.moment) == Some(page.rows[i].timestamp)
            && page.rows[i].tie_breaker == page.rows[i].position.id && row_position(
            page.rows[i].values,
            page.indices,
        ) == Some(page.rows[i].position) && resumes(page.rows[i])
    &&& forall|i: int, j: int|
        0 <= i < j < page.rows.len() ==> advances(
            (#[trigger] page.rows[i]).position,
            (#[trigger] page.rows[j]).position,
        )
}

/// How many rows the next fetch asks for; `None` when the page is complete.
pub open spec fn next_fetch(page: PageModel) -> Option<nat> {
    if page.done || page.rows.len() >= page.max_rows {
        None
    } else {
        let room = (page.max_rows - page.rows.len()) as nat;
        Some(
            if room <= page.fetch_size {
                room
            } else {
                page.fetch_size
            },
        )
    }
}

/// A row that joins a page and fits keeps every bound and the cursor order.
pub proof fn law_joining_keeps_the_page_valid(page: PageModel, row: RowModel, cost: u64)
    requires
        page_valid(page),
        page.rows.len() < page.max_rows,
        fits(page, cost),
        advances(last_position(page), row.position),
        calendar::micros_text(row.position.moment) == Some(row.timestamp),
        row.tie_breaker == row.position.id,
        row_position(row.values, page.indices) == Some(row.position),
        resumes(row),
    ensures
        page_valid(joined(page, row, cost)),
{
    let after = joined(page, row, cost);
    let grown = growth(page) as int;
    let slot = slot_bytes() as int;
    assert(after.costs.drop_last() =~= page.costs);
    assert(page.slots * slot + grown * slot == (page.slots + grown) * slot) by (nonlinear_arith);
    assert forall|i: int| 0 <= i < after.rows.len() implies advances(
        after.start,
        (#[trigger] after.rows[i]).position,
    ) && calendar::micros_text(after.rows[i].position.moment) == Some(after.rows[i].timestamp)
        && after.rows[i].tie_breaker == after.rows[i].position.id && row_position(
        after.rows[i].values,
        after.indices,
    ) == Some(after.rows[i].position) && resumes(after.rows[i]) by {
        if i == page.rows.len() && i > 0 {
            assert(advances(page.start, page.rows[i - 1].position));
        }
    }
    assert forall|i: int, j: int| 0 <= i < j < after.rows.len() implies advances(
        (#[trigger] after.rows[i]).position,
        (#[trigger] after.rows[j]).position,
    ) by {
        if j == page.rows.len() && i < j - 1 {
            assert(advances(page.rows[i].position, page.rows[j - 1].position));
        }
    }
}

/// Every row of a page comes after the start and after every row before it, so no row is
/// read twice within a page.
pub proof fn law_page_rows_ascend(page: PageModel, i: int, j: int)
    requires
        page_valid(page),
        0 <= i < j < page.rows.len(),
    ensures
        advances(page.start, page.rows[i].position),
        advances(page.rows[i].position, page.rows[j].position),
        !advances(page.rows[j].position, page.rows[i].position),
        page.rows[i].position != page.rows[j].position,
{
}

/// A page that starts where another ended holds only rows after all of the other's: pages
/// neither overlap nor go back.
pub proof fn law_next_page_continues(page: PageModel, next: PageModel, i: int, j: int)
    requires
        page_valid(page),
        page_valid(next),
        next.start == last_position(page),
        0 <= i < page.rows.len(),
        0 <= j < next.rows.len(),
    ensures
        advances(page.rows[i].position, next.rows[j].position),
{
    let last = page.rows.len() - 1;
    assert(advances(next.start, next.rows[j].position));
    if i < last {
        assert(advances(page.rows[i].position, page.rows[last].position));
    }
}

/// The cursor of a page's last row, committed and read back, starts the next page exactly
/// where this one ended.
pub proof fn law_committed_cursor_resumes(page: PageModel)
    requires
        page_valid(page),
        page.rows.len() > 0,
        calendar::is_plain(page.rows.last().position.moment),
    ensures
        start_of(page.rows.last().timestamp, page.rows.last().tie_breaker) == Some(
            last_position(page),
        ),
        page.rows.last().tie_breaker == last_position(page).id,
{
    assert(resumes(page.rows[page.rows.len() - 1]));
}

/// A page that starts at the cursor of another's last row holds only rows after all of the
/// other's: what was committed is not read again.
pub proof fn law_polling_resumes_after_the_committed_rows(
    page: PageModel,
    next: PageModel,
    i: int,
    j: int,
)
    requires
        page_valid(page),
        page_valid(next),
        0 <= i < page.rows.len(),
        0 <= j < next.rows.len(),
        calendar::is_plain(page.rows.last().position.moment),
        start_of(page.rows.last().timestamp, page.rows.last().tie_breaker) == Some(next.start),
    ensures
        advances(page.rows[i].position, next.rows[j].position),
{
    law_committed_cursor_resumes(page);
    law_next_page_continues(page, next, i, j);
}

/// A page under construction.
pub struct PageBuilder {
    columns: Vec<ColumnMetadata>,
    indices: (usize, usize),
    max_rows: usize,
    fetch_size: usize,
    limit: u64,
    start: (Moment, i64),
    previous: (Moment, i64),
    rows: Vec<CursorRow>,
    costs: Ghost<Seq<u64>>,
    slots: u128,
    used: u64,
    done: bool,
}

/// A row of a page, read back from what the page holds.
pub open spec fn row_model(row: CursorRow, indices: (usize, usize)) -> RowModel {
    let values = polling::cells(row.row.values@);
    RowModel {
        values,
        position: row_position(values, indices)->0,
        timestamp: row.cursor.timestamp@,
        tie_breaker: row.cursor.tie_breaker,
    }
}

/// Whether a row's cursor is that of its own timestamp and tie-breaker cells.
pub open spec fn has_own_cursor(row: CursorRow, indices: (usize, usize)) -> bool {
    row_position(polling::cells(row.row.values@), indices) matches Some(position)
        && calendar::micros_text(position.moment) == Some(row.cursor.timestamp@)
        && row.cursor.tie_breaker == position.id
}

impl View for PageBuilder {
    type V = PageModel;

    closed spec fn view(&self) -> PageModel {
        PageModel {
            columns: self.columns@,
            indices: self.indices,
            max_rows: self.max_rows as nat,
            fetch_size: self.fetch_size as nat,
            limit: self.limit,
            start: Position { moment: self.start.0, id: self.start.1 },
            rows: self.rows@.map_values(|row: CursorRow| row_model(row, self.indices)),
            costs: self.costs@,
            slots: self.slots as nat,
            used: self.used as nat,
            done: self.done,
        }
    }
}

fn strictly_after(a: (Moment, i64), b: (Moment, i64)) -> (found: bool)
    ensures
        found == advances(
            Position { moment: a.0, id: a.1 },
            Position { moment: b.0, id: b.1 },
        ),
{
    if a.0.secs != b.0.secs {
        a.0.secs < b.0.secs
    } else if a.0.nanos != b.0.nanos {
        a.0.nanos < b.0.nanos
    } else {
        a.1 < b.1
    }
}

/// Decodes a whole row within `limit` bytes.
pub fn decode_row(raw: &Vec<RawCell<'_>>, columns: &Vec<ColumnMetadata>, limit: u64) -> (r: Result<
    Vec<CellValue>,
    PgError,
>)
    ensures
        match r {
            Ok(values) => decoded_row(raw_row(raw@), columns@, limit) == Ok::<Seq<Cell>, PgError>(
                polling::cells(values@),
            ),
            Err(error) => decoded_row(raw_row(raw@), columns@, limit) == Err::<Seq<Cell>, PgError>(
                error,
            ),
        },
{
    let ghost all = raw_row(raw@);
    if raw.len() != columns.len() {
        return Err(PgError::Metadata);
    }
    let mut bytes: u64 = frame_bytes(raw.len());
    if bytes > limit {
        proof {
            lemma_decoding_fails(all, columns@, limit, 0, all.len());
        }
        return Err(PgError::RowTooLarge);
    }
    let mut values: Vec<CellValue> = Vec::new();
    assert(polling::cells(values@) =~= Seq::empty());
    let mut i: usize = 0;
    while i < raw.len()
        invariant
            i <= raw@.len(),
            all == raw_row(raw@),
            raw@.len() == columns@.len(),
            bytes <= limit,
            decoded_values(all, columns@, limit, i as nat) == Ok::<Decoded, PgError>(
                Decoded { values: polling::cells(values@), bytes },
            ),
        decreases raw.len() - i,
    {
        proof {
            lemma_decoding_fails(all, columns@, limit, (i + 1) as nat, all.len());
        }
        let ghost cell = raw@[i as int]@;
        assert(all[i as int] == cell);
        if !same(raw[i].name, columns[i].name.as_str()) || !same(
            raw[i].source_type,
            columns[i].source_type.as_str(),
        ) {
            return Err(PgError::Metadata);
        }
        match decode(raw[i].ty, raw[i].raw, limit - bytes) {
            Err(error) => {
                return Err(error);
            },
            Ok(value) => {
                bytes = bytes.saturating_add(value.normalized_size());
                if bytes > limit {
                    return Err(PgError::RowTooLarge);
                }
                let ghost before = values@;
                values.push(value);
                assert(polling::cells(values@) =~= polling::cells(before).push(value@));
            },
        }
        i += 1;
    }
    Ok(values)
}

proof fn lemma_decoding_fails(
    raw: Seq<RawModel>,
    columns: Seq<ColumnMetadata>,
    limit: u64,
    count: nat,
    whole: nat,
)
    requires
        count <= whole,
    ensures
        decoded_values(raw, columns, limit, count) matches Err(error) ==> decoded_values(
            raw,
            columns,
            limit,
            whole,
        ) == Err::<Decoded, PgError>(error),
    decreases whole,
{
    if count < whole {
        lemma_decoding_fails(raw, columns, limit, count, (whole - 1) as nat);
    }
}

/// Reads the position of a decoded row.
fn position_of(values: &Vec<CellValue>, indices: (usize, usize)) -> (r: Option<(Moment, i64)>)
    requires
        indices.0 < values@.len(),
        indices.1 < values@.len(),
    ensures
        match r {
            Some(position) => row_position(polling::cells(values@), indices) == Some(
                Position { moment: position.0, id: position.1 },
            ),
            None => row_position(polling::cells(values@), indices) is None,
        },
{
    let ghost all = polling::cells(values@);
    assert(all[indices.0 as int] == values@[indices.0 as int]@);
    assert(all[indices.1 as int] == values@[indices.1 as int]@);
    let moment = match &values[indices.0] {
        CellValue::Timestamp(value) => parse_timestamp(value.as_str()),
        CellValue::TimestampTz(value) => parse_timestamp(value.as_str()),
        _ => {
            return None;
        },
    };
    match moment {
        Err(_) => None,
        Ok(moment) => match &values[indices.1] {
            CellValue::Int64(id) => Some((moment, *id)),
            _ => None,
        },
    }
}

/// Whether a step of a page is what a row leads to, given what its cursor text has
/// allocated: a failure leaves the page as it was, a row that fits joins, and one that does
/// not ends the page, unless the page is empty.
pub open spec fn takes(
    result: Result<bool, PgError>,
    before: PageModel,
    after: PageModel,
    raw: Seq<RawModel>,
    capacity: usize,
) -> bool {
    match candidate(raw, before.columns, before.indices, before.limit, last_position(before)) {
        Err(error) => result == Err::<bool, PgError>(error) && after == before,
        Ok(row) => {
            let cost = row_cost(row.values, capacity);
            if fits(before, cost) {
                result == Ok::<bool, PgError>(true) && after == joined(before, row, cost)
            } else if before.rows.len() == 0 {
                result == Err::<bool, PgError>(PgError::RowTooLarge) && after == before
            } else {
                result == Ok::<bool, PgError>(false) && after == (PageModel { done: true, ..before })
            }
        },
    }
}

/// Whether an allocation has room for the cursor text of a row that may join a page.
pub open spec fn covers(capacity: usize, page: PageModel, raw: Seq<RawModel>) -> bool {
    candidate(raw, page.columns, page.indices, page.limit, last_position(page)) matches Ok(row)
        ==> capacity >= text::bytes_in(row.timestamp)
}

impl PageBuilder {
    /// Whether the page remembers the position that its next row has to be after.
    pub closed spec fn in_step(self) -> bool {
        last_position(self@) == (Position { moment: self.previous.0, id: self.previous.1 })
    }

    /// Starts a page after a committed cursor.
    pub fn new(
        columns: Vec<ColumnMetadata>,
        indices: (usize, usize),
        max_rows: usize,
        fetch_size: usize,
        limit: u64,
        cursor: &CompositeCursor,
    ) -> (r: Result<Self, PgError>)
        requires
            indices.0 < columns@.len(),
            indices.1 < columns@.len(),
        ensures
            match r {
                Ok(page) => {
                    &&& page_valid(page@)
                    &&& page.in_step()
                    &&& start_of(cursor.timestamp@, cursor.tie_breaker) == Some(page@.start)
                    &&& page@ == (PageModel {
                        columns: columns@,
                        indices,
                        max_rows: max_rows as nat,
                        fetch_size: fetch_size as nat,
                        limit,
                        start: start_of(cursor.timestamp@, cursor.tie_breaker)->0,
                        rows: Seq::empty(),
                        costs: Seq::empty(),
                        slots: 0,
                        used: 0,
                        done: false,
                    })
                },
                Err(error) => error == PgError::Cursor && start_of(
                    cursor.timestamp@,
                    cursor.tie_breaker,
                ) is None,
            },
    {
        let moment = match parse_timestamp(cursor.timestamp.as_str()) {
            Ok(moment) => moment,
            Err(_) => {
                return Err(PgError::Cursor);
            },
        };
        let page = PageBuilder {
            columns,
            indices,
            max_rows,
            fetch_size,
            limit,
            start: (moment, cursor.tie_breaker),
            previous: (moment, cursor.tie_breaker),
            rows: Vec::new(),
            costs: Ghost(Seq::empty()),
            slots: 0,
            used: 0,
            done: false,
        };
        assert(page@.rows =~= Seq::empty());
        assert(page@.slots * slot_bytes() == 0) by (nonlinear_arith)
            requires
                page@.slots == 0,
        ;
        Ok(page)
    }

    /// How many rows the next fetch asks for; `None` when the page is complete.
    pub fn next_fetch(&self) -> (r: Option<usize>)
        ensures
            r matches Some(count) ==> next_fetch(self@) == Some(count as nat),
            r is None ==> next_fetch(self@) is None,
    {
        if self.done || self.rows.len() >= self.max_rows {
            return None;
        }
        let room: usize = self.max_rows - self.rows.len();
        if room <= self.fetch_size {
            Some(room)
        } else {
            Some(self.fetch_size)
        }
    }

    /// Takes in one row. `Ok(true)` asks for the next one, `Ok(false)` ends the page.
    pub fn accept(&mut self, raw: &Vec<RawCell<'_>>) -> (r: Result<bool, PgError>)
        requires
            page_valid(old(self)@),
            old(self).in_step(),
            old(self)@.rows.len() < old(self)@.max_rows,
        ensures
            page_valid(final(self)@),
            final(self).in_step(),
            exists|capacity: usize| #[trigger]
                takes(r, old(self)@, final(self)@, raw_row(raw@), capacity) && covers(
                    capacity,
                    old(self)@,
                    raw_row(raw@),
                ),
    {
        let ghost before = self@;
        let ghost all = raw_row(raw@);
        let values = match decode_row(raw, &self.columns, self.limit) {
            Ok(values) => values,
            Err(error) => {
                assert(takes(Err(error), before, self@, all, 0));
                return Err(error);
            },
        };
        assert(polling::cells(values@).len() == self.columns@.len()) by {
            lemma_decoded_len(all, self.columns@, self.limit, all.len());
        }
        let position = match position_of(&values, self.indices) {
            Some(position) => position,
            None => {
                assert(takes(Err(PgError::Cursor), before, self@, all, 0));
                return Err(PgError::Cursor);
            },
        };
        if !strictly_after(self.previous, position) {
            assert(takes(Err(PgError::Cursor), before, self@, all, 0));
            return Err(PgError::Cursor);
        }
        let timestamp = match format_micros(position.0) {
            Some(timestamp) => timestamp,
            None => {
                assert(takes(Err(PgError::Cursor), before, self@, all, 0));
                return Err(PgError::Cursor);
            },
        };
        let capacity: usize = text_capacity(&timestamp);
        let row = CursorRow {
            row: Row { values },
            cursor: CompositeCursor::new(timestamp, position.1),
        };
        let r = self.take_row(row, position, capacity);
        assert(takes(r, before, self@, all, capacity));
        r
    }

    /// Lets a decoded row join the page when it fits, given what its cursor text has
    /// allocated.
    pub fn take_row(&mut self, row: CursorRow, position: (Moment, i64), capacity: usize) -> (r: Result<
        bool,
        PgError,
    >)
        requires
            page_valid(old(self)@),
            old(self).in_step(),
            old(self)@.rows.len() < old(self)@.max_rows,
            row_position(polling::cells(row.row.values@), old(self)@.indices) == Some(
                Position { moment: position.0, id: position.1 },
            ),
            advances(
                last_position(old(self)@),
                Position { moment: position.0, id: position.1 },
            ),
            calendar::micros_text(position.0) == Some(row.cursor.timestamp@),
            row.cursor.tie_breaker == position.1,
            resumes(row_model(row, old(self)@.indices)),
        ensures
            page_valid(final(self)@),
            final(self).in_step(),
            ({
                let model = row_model(row, old(self)@.indices);
                let cost = row_cost(model.values, capacity);
                if fits(old(self)@, cost) {
                    r == Ok::<bool, PgError>(true) && final(self)@ == joined(
                        old(self)@,
                        model,
                        cost,
                    )
                } else if old(self)@.rows.len() == 0 {
                    r == Err::<bool, PgError>(PgError::RowTooLarge) && final(self)@ == old(self)@
                } else {
                    r == Ok::<bool, PgError>(false) && final(self)@ == (PageModel {
                        done: true,
                        ..old(self)@
                    })
                }
            }),
    {
        let ghost before = self@;
        let ghost model = row_model(row, self.indices);
        let cost: u64 = memory_bytes(&row.row).saturating_add(capacity as u64);
        let grown: u128 = if (self.rows.len() as u128) < self.slots {
            0
        } else if self.slots == 0 {
            1
        } else {
            self.slots
        };
        let slot: u128 = core::mem::size_of::<CursorRow>() as u128;
        let enlarged: Option<u64> = match grown.checked_mul(slot) {
            None => None,
            Some(extra) => {
                if extra > self.limit as u128 {
                    None
                } else {
                    let sum: u128 = self.used as u128 + cost as u128 + extra;
                    if sum > self.limit as u128 {
                        None
                    } else {
                        Some(sum as u64)
                    }
                }
            },
        };
        assert(before.rows.len() == self.rows@.len());
        assert(grown == growth(before));
        assert(enlarged is Some <==> fits(before, cost));
        match enlarged {
            None => {
                if self.rows.len() == 0 {
                    return Err(PgError::RowTooLarge);
                }
                self.done = true;
                assert(self@.rows =~= before.rows);
                Ok(false)
            },
            Some(used) => {
                proof {
                    law_joining_keeps_the_page_valid(before, model, cost);
                }
                self.slots = self.slots + grown;
                self.used = used;
                self.previous = position;
                self.costs = Ghost(self.costs@.push(cost));
                self.rows.push(row);
                assert(self@.rows =~= before.rows.push(model));
                assert(self@ == joined(before, model, cost));
                Ok(true)
            },
        }
    }

    /// Takes note that a fetch brought fewer rows than it asked for, which ends the page.
    pub fn end_fetch(&mut self, asked: usize, fetched: usize)
        requires
            page_valid(old(self)@),
            old(self).in_step(),
        ensures
            page_valid(final(self)@),
            final(self).in_step(),
            final(self)@ == (PageModel {
                done: old(self)@.done || fetched < asked,
                ..old(self)@
            }),
    {
        let ghost before = self@;
        if fetched < asked {
            self.done = true;
        }
        assert(self@.rows =~= before.rows);
    }

    /// Completes the page.
    pub fn finish(self) -> (page: QueryPage)
        requires
            page_valid(self@),
        ensures
            page.columns@ == self@.columns,
            page.rows@.map_values(|row: CursorRow| row_model(row, self@.indices)) == self@.rows,
            forall|i: int|
                0 <= i < page.rows@.len() ==> has_own_cursor(
                    #[trigger] page.rows@[i],
                    self@.indices,
                ),
    {
        assert forall|i: int| 0 <= i < self.rows@.len() implies has_own_cursor(
            #[trigger] self.rows@[i],
            self.indices,
        ) by {
            assert(self@.rows[i] == row_model(self.rows@[i], self.indices));
        }
        QueryPage { columns: self.columns, rows: self.rows }
    }
}

proof fn lemma_decoded_len(
    raw: Seq<RawModel>,
    columns: Seq<ColumnMetadata>,
    limit: u64,
    count: nat,
)
    ensures
        decoded_values(raw, columns, limit, count) matches Ok(all) ==> all.values.len() == count,
    decreases count,
{
    if count > 0 {
        lemma_decoded_len(raw, columns, limit, (count - 1) as nat);
    }
}

/// One position is before another exactly when its moment is earlier, or the same with a
/// smaller tie-breaker.
pub proof fn law_positions_are_ordered_by_moment_then_id(a: Position, b: Position)
    ensures
        advances(a, b) <==> a.moment.secs < b.moment.secs || (a.moment.secs == b.moment.secs && (
        a.moment.nanos < b.moment.nanos || (a.moment.nanos == b.moment.nanos && a.id < b.id))),
        !advances(a, a),
        advances(a, b) ==> !advances(b, a),
        advances(a, b) || advances(b, a) || a == b,
{
}

/// The position of a row is that of its own cells: the moment of the timestamp cell's text,
/// and the integer of the tie-breaker's cell. Without both there is none.
pub proof fn law_position_is_of_the_cursor_cells(values: Seq<Cell>, indices: (usize, usize))
    ensures
        row_position(values, indices) matches Some(position) ==> {
            &&& values[indices.1 as int] == Cell::Int64(position.id)
            &&& match values[indices.0 as int] {
                Cell::Timestamp(text) => timestamp::cursor_moment(text) == Some(position.moment),
                Cell::TimestampTz(text) => timestamp::cursor_moment(text) == Some(position.moment),
                _ => false,
            }
        },
        row_position(values, indices) is None ==> !(values[indices.1 as int] is Int64) || match values[indices.0 as int] {
            Cell::Timestamp(text) => timestamp::cursor_moment(text) is None,
            Cell::TimestampTz(text) => timestamp::cursor_moment(text) is None,
            _ => true,
        },
{
}

/// The next fetch asks for what the page still lacks, but for no more than are to be fetched
/// at a time; there is none exactly when the page is done or full.
pub proof fn law_fetches_fill_the_page(page: PageModel)
    ensures
        next_fetch(page) is None <==> page.done || page.rows.len() >= page.max_rows,
        next_fetch(page) matches Some(rows) ==> rows <= page.fetch_size && page.rows.len() + rows
            <= page.max_rows && (rows == page.fetch_size || page.rows.len() + rows
            == page.max_rows),
{
}

/// A row fits exactly when what the page has used, the row's cost and the slots that the page
/// has to grow by together stay within the limit. A page grows only when it has no free slot,
/// and then to twice its slots, or to one.
pub proof fn law_pages_grow_by_doubling(page: PageModel, cost: u64)
    ensures
        page.rows.len() < page.slots ==> growth(page) == 0,
        page.rows.len() >= page.slots && page.slots > 0 ==> page.slots + growth(page) == 2
            * page.slots,
        page.slots == 0 ==> growth(page) == 1,
        fits(page, cost) <==> page.used + cost + growth(page) * slot_bytes() <= page.limit,
{
}

/// A row that joins is the page's last, with its cost; what the page has used grows by the
/// cost and the new slots, and nothing else changes.
pub proof fn law_joined_rows_are_last(page: PageModel, row: RowModel, cost: u64)
    ensures
        ({
            let after = joined(page, row, cost);
            &&& after.rows == page.rows + seq![row]
            &&& after.costs == page.costs + seq![cost]
            &&& after.used - page.used == cost + growth(page) * slot_bytes()
            &&& after.slots - page.slots == growth(page)
            &&& after.columns == page.columns && after.indices == page.indices && after.max_rows
                == page.max_rows && after.fetch_size == page.fetch_size && after.limit
                == page.limit && after.start == page.start && after.done == page.done
        }),
{
    assert(page.rows.push(row) =~= page.rows + seq![row]);
    assert(page.costs.push(cost) =~= page.costs + seq![cost]);
}

/// A row is taken, refused or ends the page: it is refused exactly when it cannot be decoded,
/// has no position or is not after the last one, or when it alone is too large; it ends the
/// page exactly when it does not fit behind others. A page that is refused a row stays as it
/// was.
pub proof fn law_rows_are_taken_refused_or_last(
    result: Result<bool, PgError>,
    before: PageModel,
    after: PageModel,
    raw: Seq<RawModel>,
    capacity: usize,
)
    requires
        takes(result, before, after, raw, capacity),
    ensures
        ({
            let row = candidate(
                raw,
                before.columns,
                before.indices,
                before.limit,
                last_position(before),
            );
            &&& result is Err ==> after == before
            &&& result == Ok::<bool, PgError>(true) ==> row is Ok && after.rows == before.rows.push(
                row->Ok_0,
            ) && advances(last_position(before), row->Ok_0.position) && after.used <= before.limit
            &&& result == Ok::<bool, PgError>(false) ==> row is Ok && after.rows == before.rows
                && after.used == before.used && after.done && before.rows.len() > 0
            &&& row matches Err(error) ==> result == Err::<bool, PgError>(error)
            &&& row is Ok && result is Err ==> result == Err::<bool, PgError>(PgError::RowTooLarge)
                && before.rows.len() == 0
        }),
{
}

/// A row may join a page exactly when it decodes and its position is there, is after the last
/// one and can be written; the row that joins has the values that were decoded and the cursor
/// of its own position.
pub proof fn law_candidates_advance(
    raw: Seq<RawModel>,
    columns: Seq<ColumnMetadata>,
    indices: (usize, usize),
    limit: u64,
    previous: Position,
)
    ensures
        match candidate(raw, columns, indices, limit, previous) {
            Ok(row) => {
                &&& decoded_row(raw, columns, limit) == Ok::<Seq<Cell>, PgError>(row.values)
                &&& row_position(row.values, indices) == Some(row.position)
                &&& advances(previous, row.position)
                &&& calendar::micros_text(row.position.moment) == Some(row.timestamp)
                &&& row.tie_breaker == row.position.id
            },
            Err(error) => {
                ||| decoded_row(raw, columns, limit) == Err::<Seq<Cell>, PgError>(error)
                ||| error is Cursor && decoded_row(raw, columns, limit) is Ok && (row_position(
                    decoded_row(raw, columns, limit)->Ok_0,
                    indices,
                ) matches Some(position) ==> !advances(previous, position)
                    || calendar::micros_text(position.moment) is None)
            },
        },
{
}

/// Whether a cell is the decoded form of a raw value, given some room within the limit, under
/// the name and type of its column.
pub open spec fn is_value_of(
    cell: Cell,
    raw: RawModel,
    column: ColumnMetadata,
    limit: u64,
) -> bool {
    &&& raw.name == column.name@
    &&& raw.source_type == column.source_type@
    &&& exists|room: u64|
        room <= limit && #[trigger] value::decoded(raw.ty, raw.raw, room) == Ok::<Cell, PgError>(
            cell,
        )
}

/// A row that is decoded has one value for each column, each the decoded form of its own raw
/// value under the column's own name and type, and all within the limit.
pub proof fn law_decoded_rows_keep_their_columns(
    raw: Seq<RawModel>,
    columns: Seq<ColumnMetadata>,
    limit: u64,
    count: nat,
    i: int,
)
    requires
        0 <= i < count <= raw.len(),
        raw.len() == columns.len(),
    ensures
        decoded_values(raw, columns, limit, count) matches Ok(all) ==> all.values.len() == count
            && all.bytes <= limit && is_value_of(all.values[i], raw[i], columns[i], limit),
    decreases count,
{
    if decoded_values(raw, columns, limit, count) is Ok {
        let less = (count - 1) as nat;
        let before = decoded_values(raw, columns, limit, less)->Ok_0;
        let all = decoded_values(raw, columns, limit, count)->Ok_0;
        lemma_decoded_count(raw, columns, limit, less);
        if i < less {
            law_decoded_rows_keep_their_columns(raw, columns, limit, less, i);
            assert(all.values[i] == before.values[i]);
        } else {
            let room = (limit - before.bytes) as u64;
            assert(value::decoded(raw[i].ty, raw[i].raw, room) == Ok::<Cell, PgError>(
                all.values[i],
            ));
        }
    }
}

proof fn lemma_decoded_count(
    raw: Seq<RawModel>,
    columns: Seq<ColumnMetadata>,
    limit: u64,
    count: nat,
)
    ensures
        decoded_values(raw, columns, limit, count) matches Ok(all) ==> all.values.len() == count
            && all.bytes <= limit,
    decreases count,
{
    if count > 0 {
        lemma_decoded_count(raw, columns, limit, (count - 1) as nat);
    }
}

/// A row's cursor is told by its own cells: the tie-breaker is the integer at its column, and
/// the timestamp is that of the moment at its column.
pub proof fn law_cursors_are_of_their_own_row(row: CursorRow, indices: (usize, usize))
    requires
        has_own_cursor(row, indices),
    ensures
        polling::cells(row.row.values@)[indices.1 as int] == Cell::Int64(row.cursor.tie_breaker),
        match polling::cells(row.row.values@)[indices.0 as int] {
            Cell::Timestamp(text) => timestamp::cursor_moment(text) matches Some(moment)
                && calendar::micros_text(moment) == Some(row.cursor.timestamp@),
            Cell::TimestampTz(text) => timestamp::cursor_moment(text) matches Some(moment)
                && calendar::micros_text(moment) == Some(row.cursor.timestamp@),
            _ => false,
        },
{
    law_position_is_of_the_cursor_cells(polling::cells(row.row.values@), indices);
}

} // verus!
