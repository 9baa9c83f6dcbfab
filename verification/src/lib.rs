//! Database receivers: bounded polling of SQL sources into OTLP logs.

pub mod agent;
pub mod calendar;
pub mod database;
pub mod double;
pub mod fingerprint;
pub mod json;
pub mod names;
pub mod oracle;
pub mod otlp;
pub mod polling;
pub mod postgresql;
pub mod progress;
pub mod receivers;
pub mod scraper;
pub mod text;
pub mod time;
pub mod units;
pub mod utf8;
