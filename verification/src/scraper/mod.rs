//! Shared database scraper runtime: rows, cursors, checkpoints and delivery completion.

pub mod checkpoint;
pub mod completion;
pub mod config;
pub mod cursor;
pub mod driver;
pub mod lifecycle;
pub mod mapping;
pub mod metrics;
pub mod poller;
pub mod row;
