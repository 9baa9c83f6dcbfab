//! The PostgreSQL receiver's boundary.

use crate::scraper::config::ScraperConfig;
use vstd::prelude::*;

verus! {

/// The name under which the receiver is registered.
pub const POSTGRESQL_RECEIVER_URN: &'static str = "urn:otel:receiver:postgresql";

/// Settings of a PostgreSQL source.
#[derive(Debug)]
pub struct PostgresqlConfig {
    /// What every source sets.
    pub common: ScraperConfig,
    /// How the server is reached.
    pub connection: PostgresqlConnectionConfig,
    /// What is read.
    pub source: PostgresqlSourceConfig,
}

/// How a PostgreSQL server is reached.
#[derive(Debug)]
pub struct PostgresqlConnectionConfig {
    /// Host and port.
    pub endpoint: String,
    /// The database.
    pub database: String,
    /// The mounted credential.
    pub credential_file: String,
    /// The trusted roots; the system's when absent.
    pub ca_file: Option<String>,
    /// The name that the server's certificate must hold.
    pub server_name: String,
}

/// What is read from a PostgreSQL server.
#[derive(Debug)]
pub struct PostgresqlSourceConfig {
    /// The mounted statement.
    pub query_file: String,
    /// The statement's cursor binds in order.
    pub cursor_bind_names: Vec<String>,
    /// Rows of one fetch.
    pub fetch_rows: usize,
}

/// A PostgreSQL session.
#[derive(Debug)]
pub struct PostgresqlScraper;

/// A native PostgreSQL value.
#[derive(Debug)]
pub struct PostgresqlValue;

/// Why a native value has no neutral form.
#[derive(Clone, Copy, Debug, PartialEq, Eq, Structural)]
pub enum PostgresqlValueError {
    UnsupportedType,
    PrecisionLoss,
    InvalidEncoding,
    OversizedValue,
}

} // verus!
