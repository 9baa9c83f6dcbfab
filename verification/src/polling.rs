//! Incremental polling plans: cursors, watermarks, page bounds and their validation.

use crate::database::row;
use crate::database::row::{Cell, CellValue, ColumnMetadata, Row};
use crate::text;
use crate::text::blank;
use crate::time::Duration;
use vstd::prelude::*;

verus! {

/// The most rows fetched at a time.
pub const MAX_FETCH_SIZE_ROWS: usize = 10_000;

/// The most pages read in one catch-up.
pub const MAX_CATCH_UP_PAGES: usize = 1_024;

/// A position in a source: a timestamp, and a number that tells rows of the same
/// timestamp apart.
#[derive(Debug, PartialEq, Eq)]
pub struct CompositeCursor {
    /// The timestamp as text that the source's driver reads back.
    pub timestamp: String,
    /// The tie-breaker.
    pub tie_breaker: i64,
}

impl CompositeCursor {
    /// A cursor at a timestamp and tie-breaker.
    pub fn new(timestamp: String, tie_breaker: i64) -> (r: Self)
        ensures
            r.timestamp == timestamp,
            r.tie_breaker == tie_breaker,
    {
        CompositeCursor { timestamp, tie_breaker }
    }
}

impl Clone for CompositeCursor {
    fn clone(&self) -> (r: Self)
        ensures
            r == *self,
    {
        CompositeCursor { timestamp: self.timestamp.clone(), tie_breaker: self.tie_breaker }
    }
}

/// One row and the cursor that follows it.
pub struct CursorRow {
    /// The row.
    pub row: Row,
    /// The position after the row.
    pub cursor: CompositeCursor,
}

/// One page of a source, in cursor order.
pub struct QueryPage {
    /// The result columns.
    pub columns: Vec<ColumnMetadata>,
    /// The rows.
    pub rows: Vec<CursorRow>,
}

/// The timestamp part of a watermark.
pub struct TimestampWatermark {
    /// Result column.
    pub column: String,
    /// Bind name in the statement.
    pub bind: String,
    /// Where polling starts.
    pub initial: String,
    /// Time zone of the source column.
    pub timezone: String,
}

/// The tie-breaker part of a watermark.
pub struct TieBreakerWatermark {
    /// Result column.
    pub column: String,
    /// Bind name in the statement.
    pub bind: String,
    /// Where polling starts.
    pub initial: i64,
}

/// How a source's progress is tracked.
pub enum WatermarkConfig {
    /// By a timestamp and a tie-breaker.
    Composite {
        /// The timestamp part.
        timestamp: TimestampWatermark,
        /// The tie-breaker part.
        tie_breaker: TieBreakerWatermark,
    },
}

/// The timestamp part.
pub open spec fn timestamp_part(watermark: WatermarkConfig) -> TimestampWatermark {
    match watermark {
        WatermarkConfig::Composite { timestamp, tie_breaker } => timestamp,
    }
}

/// The tie-breaker part.
pub open spec fn tie_breaker_part(watermark: WatermarkConfig) -> TieBreakerWatermark {
    match watermark {
        WatermarkConfig::Composite { timestamp, tie_breaker } => tie_breaker,
    }
}

/// Whether every name of a watermark says something.
pub open spec fn is_named(watermark: WatermarkConfig) -> bool {
    &&& !text::is_blank(timestamp_part(watermark).column@)
    &&& !text::is_blank(timestamp_part(watermark).bind@)
    &&& !text::is_blank(tie_breaker_part(watermark).column@)
    &&& !text::is_blank(tie_breaker_part(watermark).bind@)
}

impl WatermarkConfig {
    /// Borrows the timestamp part.
    pub fn timestamp(&self) -> (r: &TimestampWatermark)
        ensures
            *r == timestamp_part(*self),
    {
        match self {
            WatermarkConfig::Composite { timestamp, .. } => timestamp,
        }
    }

    /// Borrows the tie-breaker part.
    pub fn tie_breaker(&self) -> (r: &TieBreakerWatermark)
        ensures
            *r == tie_breaker_part(*self),
    {
        match self {
            WatermarkConfig::Composite { tie_breaker, .. } => tie_breaker,
        }
    }

    /// Whether columns and binds are named.
    pub fn valid(&self) -> (found: bool)
        ensures
            found == is_named(*self),
    {
        let timestamp = self.timestamp();
        let tie_breaker = self.tie_breaker();
        !blank(timestamp.column.as_str()) && !blank(timestamp.bind.as_str()) && !blank(
            tie_breaker.column.as_str(),
        ) && !blank(tie_breaker.bind.as_str())
    }
}

/// A watermark as a plan holds it.
pub struct CompositeWatermark {
    /// Timestamp result column.
    pub timestamp_column: String,
    /// Timestamp bind name.
    pub timestamp_bind: String,
    /// Tie-breaker result column.
    pub tie_breaker_column: String,
    /// Tie-breaker bind name.
    pub tie_breaker_bind: String,
    /// Where polling starts.
    pub initial: CompositeCursor,
}

/// Whether a plan's watermark is the configured one.
pub open spec fn tracks(watermark: CompositeWatermark, configured: WatermarkConfig) -> bool {
    &&& watermark.timestamp_column == timestamp_part(configured).column
    &&& watermark.timestamp_bind == timestamp_part(configured).bind
    &&& watermark.tie_breaker_column == tie_breaker_part(configured).column
    &&& watermark.tie_breaker_bind == tie_breaker_part(configured).bind
    &&& watermark.initial.timestamp == timestamp_part(configured).initial
    &&& watermark.initial.tie_breaker == tie_breaker_part(configured).initial
}

/// What happens to progress when delivery is refused.
#[derive(Clone, Copy, Debug, PartialEq, Eq, Structural)]
pub enum OnNack {
    /// Polling starts again from the committed cursor.
    Rewind,
}

/// How progress is kept.
pub struct CheckpointConfig {
    /// Where checkpoints are stored.
    pub directory: String,
    /// What a refused delivery leads to.
    pub on_nack: OnNack,
    /// The delay after a refused delivery.
    pub nack_backoff: Duration,
    /// How many failures in a row stop the receiver.
    pub max_consecutive_failures: u32,
}

/// How far one poll may go on reading pages.
#[derive(Clone, Copy, Debug, PartialEq, Eq, Structural)]
pub struct CatchUpConfig {
    /// The most pages in a row.
    pub max_pages: usize,
    /// The longest time in a row.
    pub max_duration: Duration,
}

impl Default for CatchUpConfig {
    fn default() -> (r: Self)
        ensures
            r.max_pages == 32,
            r.max_duration@ == 10_000_000_000,
    {
        CatchUpConfig { max_pages: 32, max_duration: Duration::from_secs(10) }
    }
}

impl CatchUpConfig {
    /// Whether a poll goes on with another page, after a page of `rows` rows which was its
    /// `pages`th and ended after `elapsed`: there was something to read, and both bounds leave
    /// room.
    pub fn goes_on(&self, rows: usize, pages: usize, elapsed: Duration) -> (found: bool)
        ensures
            found == (rows > 0 && pages < self.max_pages && elapsed@ < self.max_duration@),
    {
        rows > 0 && pages < self.max_pages && !self.max_duration.at_most(&elapsed)
    }
}

/// The bounds of one poll.
#[derive(Clone, Copy, Debug, PartialEq, Eq, Structural)]
pub struct PollingConfig {
    /// Delay between polls.
    pub interval: Duration,
    /// Deadline of one poll.
    pub timeout: Duration,
    /// Rows fetched at a time.
    pub fetch_size_rows: usize,
    /// Rows of one page.
    pub max_rows_per_poll: usize,
    /// Bytes of one page, in memory and encoded.
    pub max_batch_bytes: u64,
    /// How far one poll may go on.
    pub catch_up: CatchUpConfig,
}

/// Whether fetches are within bounds and no larger than a page, and catch-up is bounded.
pub open spec fn is_bounded(polling: PollingConfig) -> bool {
    &&& 1 <= polling.fetch_size_rows <= MAX_FETCH_SIZE_ROWS
    &&& polling.fetch_size_rows <= polling.max_rows_per_poll
    &&& 1 <= polling.catch_up.max_pages <= MAX_CATCH_UP_PAGES
}

/// Which columns a poll's output relies on.
pub struct OutputConfig {
    /// The column that holds the event time.
    pub timestamp_column: Option<String>,
    /// Further columns that must be present.
    pub validation_columns: Vec<String>,
}

/// A validated incremental query.
pub struct CompiledQuery {
    sql: String,
    polling: PollingConfig,
    watermark: CompositeWatermark,
    output: OutputConfig,
}

impl CompiledQuery {
    /// The statement to run.
    pub closed spec fn statement(self) -> Seq<char> {
        self.sql@
    }

    /// The bounds of one poll.
    pub closed spec fn bounds(self) -> PollingConfig {
        self.polling
    }

    /// How progress is tracked.
    pub closed spec fn tracking(self) -> CompositeWatermark {
        self.watermark
    }

    /// Which columns the output relies on.
    pub closed spec fn columns(self) -> OutputConfig {
        self.output
    }

    #[verifier::type_invariant]
    closed spec fn holds_together(self) -> bool {
        is_bounded(self.polling)
    }

    /// Compiles a statement and its bounds; `None` when the bounds do not hold together.
    pub fn compile(
        sql: String,
        polling: PollingConfig,
        watermark: &WatermarkConfig,
        output: OutputConfig,
    ) -> (r: Option<Self>)
        ensures
            r is Some <==> is_bounded(polling),
            r matches Some(query) ==> {
                &&& query.statement() == sql@
                &&& query.bounds() == polling
                &&& tracks(query.tracking(), *watermark)
                &&& query.columns() == output
            },
    {
        if polling.fetch_size_rows < 1 || polling.fetch_size_rows > MAX_FETCH_SIZE_ROWS
            || polling.fetch_size_rows > polling.max_rows_per_poll || polling.catch_up.max_pages < 1
            || polling.catch_up.max_pages > MAX_CATCH_UP_PAGES {
            return None;
        }
        let timestamp = watermark.timestamp();
        let tie_breaker = watermark.tie_breaker();
        Some(
            CompiledQuery {
                sql,
                polling,
                watermark: CompositeWatermark {
                    timestamp_column: timestamp.column.clone(),
                    timestamp_bind: timestamp.bind.clone(),
                    tie_breaker_column: tie_breaker.column.clone(),
                    tie_breaker_bind: tie_breaker.bind.clone(),
                    initial: CompositeCursor::new(
                        timestamp.initial.clone(),
                        tie_breaker.initial,
                    ),
                },
                output,
            },
        )
    }

    /// Borrows the statement to run.
    pub fn sql(&self) -> (r: &str)
        ensures
            r@ == self.statement(),
    {
        self.sql.as_str()
    }

    /// Delay between polls.
    pub fn interval(&self) -> (r: Duration)
        ensures
            r == self.bounds().interval,
    {
        self.polling.interval
    }

    /// Deadline of one poll.
    pub fn timeout(&self) -> (r: Duration)
        ensures
            r == self.bounds().timeout,
    {
        self.polling.timeout
    }

    /// Rows fetched at a time.
    pub fn fetch_size_rows(&self) -> (n: usize)
        ensures
            n == self.bounds().fetch_size_rows,
            1 <= n <= MAX_FETCH_SIZE_ROWS,
    {
        proof {
            use_type_invariant(self);
        }
        self.polling.fetch_size_rows
    }

    /// Rows of one page.
    pub fn max_rows(&self) -> (n: usize)
        ensures
            n == self.bounds().max_rows_per_poll,
    {
        self.polling.max_rows_per_poll
    }

    /// Encoded bytes of one page.
    pub fn max_batch_bytes(&self) -> (n: u64)
        ensures
            n == self.bounds().max_batch_bytes,
    {
        self.polling.max_batch_bytes
    }

    /// Bytes of one page in memory: the same limit as for its encoding.
    pub fn max_normalized_bytes(&self) -> (n: u64)
        ensures
            n == self.bounds().max_batch_bytes,
    {
        self.polling.max_batch_bytes
    }

    /// How far one poll may go on.
    pub fn catch_up(&self) -> (r: CatchUpConfig)
        ensures
            r == self.bounds().catch_up,
    {
        self.polling.catch_up
    }

    /// Borrows how progress is tracked.
    pub fn watermark(&self) -> (r: &CompositeWatermark)
        ensures
            *r == self.tracking(),
    {
        &self.watermark
    }

    /// Borrows which columns the output relies on.
    pub fn output(&self) -> (r: &OutputConfig)
        ensures
            *r == self.columns(),
    {
        &self.output
    }
}

/// The values of a row as mathematical values.
pub open spec fn cells(values: Seq<CellValue>) -> Seq<Cell> {
    values.map_values(|value: CellValue| value@)
}

/// The payload of a run of values.
pub open spec fn payload(values: Seq<Cell>) -> nat
    decreases values.len(),
{
    if values.len() == 0 {
        0
    } else {
        payload(values.drop_last()) + row::cell_size(values.last())
    }
}

/// The bytes of a row without its payload: its header and a slot for each value.
pub open spec fn row_frame(count: nat) -> nat {
    vstd::layout::size_of::<Row>() + count * vstd::layout::size_of::<CellValue>()
}

/// The memory that a row takes, as far as it can be counted.
pub open spec fn row_memory(values: Seq<Cell>) -> u64 {
    row::saturated((row_frame(values.len()) + payload(values)) as int)
}

/// The bytes of a row without its payload.
pub fn frame_bytes(count: usize) -> (bytes: u64)
    ensures
        bytes == row::saturated(row_frame(count as nat) as int),
{
    let header: u128 = core::mem::size_of::<Row>() as u128;
    let slot: u128 = core::mem::size_of::<CellValue>() as u128;
    proof {
        let a = count as int;
        let b = slot as int;
        assert(0 <= a * b <= 0xffff_ffff_ffff_ffff * 0xffff_ffff_ffff_ffff) by (nonlinear_arith)
            requires
                0 <= a <= 0xffff_ffff_ffff_ffff,
                0 <= b <= 0xffff_ffff_ffff_ffff,
        ;
    }
    let total: u128 = header + count as u128 * slot;
    if total > u64::MAX as u128 {
        u64::MAX
    } else {
        total as u64
    }
}

/// The memory that a row takes, as far as it can be counted.
pub fn memory_bytes(row: &Row) -> (bytes: u64)
    ensures
        bytes == row_memory(cells(row.values@)),
{
    let mut bytes: u64 = frame_bytes(row.values.len());
    let ghost all = cells(row.values@);
    let mut i: usize = 0;
    assert(payload(all.take(0)) == 0);
    while i < row.values.len()
        invariant
            i <= row.values@.len(),
            all == cells(row.values@),
            bytes == row::saturated((row_frame(row.values@.len()) + payload(all.take(i as int))) as int),
        decreases row.values.len() - i,
    {
        assert(all.take(i + 1).drop_last() =~= all.take(i as int));
        assert(all.take(i + 1).last() == row.values@[i as int]@);
        bytes = bytes.saturating_add(row.values[i].normalized_size());
        i += 1;
    }
    assert(all.take(all.len() as int) =~= all);
    bytes
}

/// `String::capacity`: how many bytes a text can hold before it moves, at least its own.
/// The allocator may have given more.
#[verifier::external_body]
pub(crate) fn text_capacity(value: &String) -> (n: usize)
    ensures
        n >= text::bytes_in(value@),
{
    value.capacity()
}

/// Polling is bounded exactly when a fetch has from one to ten thousand rows and no more than
/// a page, and catching up reads from one to a thousand and twenty-four pages.
pub proof fn law_bounded_polling(polling: PollingConfig)
    ensures
        is_bounded(polling) <==> polling.fetch_size_rows >= 1 && polling.fetch_size_rows <= 10_000
            && polling.fetch_size_rows <= polling.max_rows_per_poll && polling.catch_up.max_pages >= 1
            && polling.catch_up.max_pages <= 1024,
{
}

/// A row's memory is its header, a slot for each value and what each value holds, as far as it
/// can be counted: one more value adds one slot and its own size.
pub proof fn law_row_memory_adds_up(values: Seq<Cell>, value: Cell)
    ensures
        payload(Seq::empty()) == 0,
        payload(values.push(value)) == payload(values) + row::cell_size(value),
        row_frame(values.len() + 1) - row_frame(values.len()) == vstd::layout::size_of::<
            CellValue,
        >(),
        row_frame(0) == vstd::layout::size_of::<Row>(),
        row_memory(values) < u64::MAX ==> row_memory(values) == row_frame(values.len()) + payload(
            values,
        ),
{
    assert(values.push(value).drop_last() =~= values);
    let slot = vstd::layout::size_of::<CellValue>() as int;
    let count = values.len() as int;
    assert((count + 1) * slot == count * slot + slot) by (nonlinear_arith);
    assert(0 * slot == 0) by (nonlinear_arith);
}

/// A watermark's names say something exactly when none of the two columns and the two binds is
/// blank, and a plan that tracks it has those names and starts where it does.
pub proof fn law_watermarks_are_tracked_as_configured(
    watermark: CompositeWatermark,
    configured: WatermarkConfig,
)
    ensures
        ({
            let WatermarkConfig::Composite { timestamp, tie_breaker } = configured;
            &&& is_named(configured) <==> !text::is_blank(timestamp.column@) && !text::is_blank(
                timestamp.bind@,
            ) && !text::is_blank(tie_breaker.column@) && !text::is_blank(tie_breaker.bind@)
            &&& tracks(watermark, configured) ==> watermark.timestamp_column@ == timestamp.column@
                && watermark.timestamp_bind@ == timestamp.bind@ && watermark.tie_breaker_column@
                == tie_breaker.column@ && watermark.tie_breaker_bind@ == tie_breaker.bind@
                && watermark.initial.timestamp@ == timestamp.initial@
                && watermark.initial.tie_breaker == tie_breaker.initial
        }),
{
}

} // verus!
