//! The Oracle receiver's boundary.

use crate::scraper::config::ScraperConfig;
use vstd::prelude::*;

verus! {

/// The name under which the receiver is registered.
pub const ORACLE_RECEIVER_URN: &'static str = "urn:otel:receiver:oracle";

/// Settings of an Oracle source.
#[derive(Debug)]
pub struct OracleConfig {
    /// What every source sets.
    pub common: ScraperConfig,
    /// How the server is reached.
    pub connection: OracleConnectionConfig,
    /// What is read.
    pub source: OracleSourceConfig,
}

/// How an Oracle server is reached.
#[derive(Debug)]
pub struct OracleConnectionConfig {
    /// Host and port.
    pub endpoint: String,
    /// The service.
    pub service_name: String,
    /// The mounted credential.
    pub credential_file: String,
    /// The mounted wallet, if there is one.
    pub wallet_directory: Option<String>,
    /// The identity that the server's certificate must hold.
    pub server_identity: String,
    /// The most bytes of the credential.
    pub max_secret_bytes: usize,
    /// The most sessions.
    pub max_connections: usize,
    /// The most blocking calls at a time.
    pub blocking_concurrency: usize,
}

/// What is read from an Oracle server.
#[derive(Debug)]
pub struct OracleSourceConfig {
    /// The mounted statement.
    pub query_file: String,
    /// The cursor's columns in order.
    pub key_columns: Vec<OracleKeyColumn>,
    /// The statement's cursor binds.
    pub cursor_binds: Vec<OracleCursorBind>,
    /// Rows of one fetch.
    pub fetch_array_size: usize,
    /// Prepared statements kept.
    pub statement_cache_capacity: usize,
}

/// A cursor column.
#[derive(Debug)]
pub struct OracleKeyColumn {
    /// Its name.
    pub name: String,
    /// Its type.
    pub value_type: OracleValueType,
}

/// A cursor bind.
#[derive(Debug)]
pub struct OracleCursorBind {
    /// Which cursor column it binds.
    pub cursor_index: usize,
    /// Its placeholder in the statement.
    pub placeholder: String,
}

/// The type of a cursor column.
#[derive(Clone, Copy, Debug, PartialEq, Eq, Structural)]
pub enum OracleValueType {
    Bool,
    Int64,
    Float64,
    Text,
    Bytes,
    Timestamp,
}

/// An Oracle session.
#[derive(Debug)]
pub struct OracleScraper;

/// A native Oracle value.
#[derive(Debug)]
pub struct OracleValue;

/// Why the receiver failed.
#[derive(Clone, Copy, Debug, PartialEq, Eq, Structural)]
pub enum OracleReceiverError {
    InvalidConfig,
    Credential,
    NativeClientUnavailable,
    Connect,
    Prepare,
    Bind,
    Fetch,
    Cancel,
    Convert,
}

/// Why a native value has no neutral form.
#[derive(Clone, Copy, Debug, PartialEq, Eq, Structural)]
pub enum OracleValueError {
    UnsupportedType,
    PrecisionLoss,
    InvalidEncoding,
    OversizedLob,
}

} // verus!
