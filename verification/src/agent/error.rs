//! What can go wrong before an agent runs.

use vstd::prelude::*;

verus! {

/// The invalid setting or the failed stage. It never holds credentials, connection strings,
/// SQL text, row values, or cursor values.
#[derive(Clone, Copy, Debug, PartialEq, Eq, Structural)]
pub enum AgentError {
    MissingInput,
    UnsupportedInputVersion,
    UnsupportedReceiver,
    ReceiverNotCompiled,
    InvalidEndpoint,
    InvalidFileReference,
    PipelineConstruction,
    PipelineValidation,
    Controller,
}

} // verus!
