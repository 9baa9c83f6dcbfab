//! Local configuration of an agent that runs one database receiver.

pub mod bootstrap;
pub mod error;
pub mod input;
pub mod pipeline;
