//! Cancellation shared between one Oracle worker and its receiver.

use crate::oracle::error::OracleAdapterError;
use vstd::prelude::*;

verus! {

/// Whether an operation was cancelled, whether it has a connection to interrupt, and whether
/// the adapter was shut down.
#[derive(Clone, Copy, Debug, PartialEq, Eq, Structural)]
pub struct CancellationState {
    /// The operation was cancelled.
    pub requested: bool,
    /// The adapter was shut down.
    pub stopped: bool,
    /// The operation has published its connection.
    pub active: bool,
}

impl CancellationState {
    /// The state before any operation.
    pub fn new() -> (r: Self)
        ensures
            r == (CancellationState { requested: false, stopped: false, active: false }),
    {
        CancellationState { requested: false, stopped: false, active: false }
    }

    /// Starts an operation. None starts after shutdown.
    pub fn begin_operation(&mut self) -> (r: Result<(), OracleAdapterError>)
        ensures
            if old(self).stopped {
                r == Err::<(), OracleAdapterError>(OracleAdapterError::Cancelled) && *final(self)
                    == *old(self)
            } else {
                r == Ok::<(), OracleAdapterError>(()) && *final(self) == (CancellationState {
                    requested: false,
                    stopped: false,
                    active: false,
                })
            },
    {
        if self.stopped {
            return Err(OracleAdapterError::Cancelled);
        }
        self.requested = false;
        self.active = false;
        Ok(())
    }

    /// Publishes the operation's connection, unless the operation was cancelled.
    pub fn register(&mut self) -> (r: Result<(), OracleAdapterError>)
        ensures
            if old(self).requested {
                r == Err::<(), OracleAdapterError>(OracleAdapterError::Cancelled) && *final(self)
                    == *old(self)
            } else {
                r == Ok::<(), OracleAdapterError>(()) && *final(self) == (CancellationState {
                    active: true,
                    ..*old(self)
                })
            },
    {
        if self.requested {
            return Err(OracleAdapterError::Cancelled);
        }
        self.active = true;
        Ok(())
    }

    /// Withdraws the operation's connection, so that a later cancellation does not reach it.
    pub fn release(&mut self)
        ensures
            *final(self) == (CancellationState { active: false, ..*old(self) }),
    {
        self.active = false;
    }

    /// Checks that the operation may make its next native call.
    pub fn ensure_not_requested(&self) -> (r: Result<(), OracleAdapterError>)
        ensures
            r == if self.requested {
                Err::<(), OracleAdapterError>(OracleAdapterError::Cancelled)
            } else {
                Ok(())
            },
    {
        if self.requested {
            Err(OracleAdapterError::Cancelled)
        } else {
            Ok(())
        }
    }

    /// Takes in the result of a native call. A cancelled operation's result is dropped,
    /// though the call itself succeeded.
    pub fn after_call<T>(&self, result: Result<T, OracleAdapterError>) -> (r: Result<
        T,
        OracleAdapterError,
    >)
        ensures
            if self.requested {
                r == Err::<T, OracleAdapterError>(OracleAdapterError::Cancelled)
            } else {
                r == result
            },
    {
        if self.requested {
            return Err(OracleAdapterError::Cancelled);
        }
        result
    }

    /// Cancels the operation, and says whether there is a connection to interrupt.
    pub fn request(&mut self) -> (interrupt: bool)
        ensures
            interrupt == old(self).active,
            *final(self) == (CancellationState { requested: true, ..*old(self) }),
    {
        self.requested = true;
        self.active
    }

    /// Shuts the adapter down for good.
    pub fn stop(&mut self)
        ensures
            *final(self) == (CancellationState { requested: true, stopped: true, ..*old(self) }),
    {
        self.requested = true;
        self.stopped = true;
    }
}

} // verus!
