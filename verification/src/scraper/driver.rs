//! Narrow contract implemented by each vendor receiver.

use crate::scraper::cursor::Cursor;
use crate::scraper::row::{ResultSchema, RowSink};
use crate::time::Instant;
use vstd::prelude::*;

verus! {

/// Reads one source.
pub trait DatabaseScraper: Sized {
    /// The vendor's settings.
    type Config;

    /// Opens a session.
    fn open(config: &Self::Config) -> Result<Self, ScrapeError>;

    /// Checks a statement before it is polled.
    fn preflight(&mut self, request: PreflightRequest<'_>) -> Result<ResultSchema, ScrapeError>;

    /// Reads one bounded page into a sink.
    fn scrape<K: RowSink>(&mut self, request: ScrapeRequest<'_>, sink: &mut K) -> Result<
        ScrapeOutcome,
        ScrapeError,
    >;

    /// Closes the session.
    fn shutdown(&mut self) -> Result<(), ScrapeError>;
}

/// What is checked before polling.
#[derive(Debug)]
pub struct PreflightRequest<'a> {
    /// The statement.
    pub query: &'a str,
    /// The cursor columns it must return.
    pub cursor_columns: &'a [String],
}

/// What one page is to hold.
pub struct ScrapeRequest<'a> {
    /// The statement.
    pub query: &'a str,
    /// The position to read after; from the beginning when absent.
    pub committed_cursor: Option<&'a Cursor>,
    /// The most rows.
    pub max_rows: usize,
    /// The most normalized bytes.
    pub max_normalized_bytes: usize,
    /// When reading must end; admission, preparation, execution, fetch and decoding count.
    pub deadline: Instant,
}

/// What one page held.
pub struct ScrapeOutcome {
    /// How many rows.
    pub rows_emitted: usize,
    /// How many normalized bytes.
    pub normalized_bytes: usize,
    /// The position after the last row; none without rows.
    pub candidate_cursor: Option<Cursor>,
    /// Whether the source has no more rows now.
    pub reached_source_tail: bool,
}

/// Why a page could not be read.
#[derive(Clone, Copy, Debug, PartialEq, Eq, Structural)]
pub enum ScrapeError {
    Authentication,
    Authorization,
    InvalidQuery,
    SchemaChanged,
    Timeout,
    Cancelled,
    ConnectionLost,
    UnsupportedValue,
    ResourceLimit,
    Other,
}

} // verus!
