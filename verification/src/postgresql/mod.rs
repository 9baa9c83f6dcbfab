//! PostgreSQL query receiver.

pub mod config;
pub mod credential;
pub mod error;
pub mod identity;
pub mod metadata;
pub mod numeric;
pub mod page;
pub mod parser;
pub mod session;
pub mod shape;
pub mod sql;
pub mod timestamp;
pub mod trust;
pub mod value;
pub mod wire;
