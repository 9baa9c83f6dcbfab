//! The MySQL receiver's boundary.

use crate::scraper::config::ScraperConfig;
use vstd::prelude::*;

verus! {

/// Settings of a MySQL source.
#[derive(Debug)]
pub struct MySqlConfig {
    /// What every source sets.
    pub common: ScraperConfig,
    /// How the server is reached.
    pub connection: MySqlConnectionConfig,
    /// What is read.
    pub source: MySqlSourceConfig,
}

/// How a MySQL server is reached.
#[derive(Debug)]
pub struct MySqlConnectionConfig {
    /// Host and port.
    pub endpoint: String,
    /// The database.
    pub database: String,
    /// The mounted credential.
    pub credential_file: String,
    /// The trusted roots; the system's when absent.
    pub ca_file: Option<String>,
    /// The name that the server's certificate must hold.
    pub server_name: String,
}

/// What is read from a MySQL server.
#[derive(Debug)]
pub struct MySqlSourceConfig {
    /// The mounted statement.
    pub query_file: String,
    /// The statement's cursor binds in order.
    pub cursor_bind_names: Vec<String>,
    /// Rows of one fetch.
    pub fetch_rows: usize,
}

/// A MySQL session.
#[derive(Debug)]
pub struct MySqlScraper;

/// A native MySQL value.
#[derive(Debug)]
pub struct MySqlValue;

/// Why the receiver failed.
#[derive(Clone, Copy, Debug, PartialEq, Eq, Structural)]
pub enum MySqlReceiverError {
    InvalidConfig,
    Credential,
    Connect,
    Prepare,
    Bind,
    Fetch,
    Cancel,
    Convert,
}

/// Why a native value has no neutral form.
#[derive(Clone, Copy, Debug, PartialEq, Eq, Structural)]
pub enum MySqlValueError {
    UnsupportedType,
    PrecisionLoss,
    InvalidEncoding,
    OversizedValue,
}

} // verus!
