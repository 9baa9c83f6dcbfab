//! Settings, native values and errors of the vendor receivers over the shared runtime.

pub mod mysql;
pub mod oracle;
pub mod postgresql;
pub mod sql_server;
