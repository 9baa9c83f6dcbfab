//! Database-neutral receiver: configuration, rows, scheduling and OTLP mapping.

pub mod config;
pub mod driver;
pub mod metrics;
pub mod otlp;
pub mod query;
pub mod receiver;
pub mod row;
pub mod scheduler;
