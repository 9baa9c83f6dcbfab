//! The SQL Server receiver's boundary.

use vstd::prelude::*;

verus! {

/// The name under which the receiver is registered.
pub const SQL_SERVER_RECEIVER_URN: &'static str = "urn:otel:receiver:sql_server";

/// A native SQL Server value.
#[derive(Debug)]
pub struct SqlServerValue;

/// Why a native value has no neutral form.
#[derive(Clone, Copy, Debug, PartialEq, Eq, Structural)]
pub enum SqlServerValueError {
    UnsupportedType,
    PrecisionLoss,
    InvalidEncoding,
    OversizedValue,
}

} // verus!
