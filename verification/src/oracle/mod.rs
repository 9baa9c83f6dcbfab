//! Oracle query receiver.

pub mod cancellation;
pub mod config;
pub mod connect;
pub mod error;
pub mod lexer;
pub mod page;
pub mod plan;
pub mod statement;
pub mod stream;
pub mod timestamp;
pub mod types;
pub mod value;
