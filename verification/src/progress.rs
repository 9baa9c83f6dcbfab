//! Progress and ownership contracts, independent of filesystem persistence.

use crate::polling::CompositeCursor;
use vstd::prelude::*;

verus! {

/// Last acknowledged cursor and its checkpoint revision.
#[derive(Debug, PartialEq, Eq)]
pub struct CheckpointState {
    /// Monotonic revision of the committed checkpoint.
    pub revision: u64,
    /// Last durably acknowledged cursor.
    pub cursor: CompositeCursor,
}

impl Clone for CheckpointState {
    fn clone(&self) -> (r: Self)
        ensures
            r == *self,
    {
        CheckpointState { revision: self.revision, cursor: self.cursor.clone() }
    }
}

/// Non-fatal outcome details of one checkpoint write.
#[derive(Clone, Copy, Debug, PartialEq, Eq, Structural)]
pub struct WriteOutcome {
    /// Number of stale revision files that could not be removed.
    pub cleanup_failures: usize,
}

/// Persistence operations required by the ACK-driven polling controller.
///
/// Clones must address the same checkpoint identity. Reads must fail closed on
/// invalid state. A successful write must install the next revision durably
/// before returning; a failed write must not authorize in-memory advancement.
pub trait CheckpointBackend: Sized {
    /// Read or write failure reported to the controller.
    type Error;

    /// Loads the last committed state, or `None` for a new checkpoint.
    fn read(&self) -> Result<Option<CheckpointState>, Self::Error>;

    /// Durably installs the cursor after the supplied committed revision.
    fn write(&self, revision: u64, cursor: &CompositeCursor) -> Result<
        (CheckpointState, WriteOutcome),
        Self::Error,
    >;
}

/// Ownership guard retained for the lifetime of a source's polling controller.
///
/// The caller must acquire this guard for the same identity as its checkpoint.
/// Dropping it releases ownership only after active database work has ended.
pub trait SourceOwnership {
    /// Monotonic generation identifying this acquisition of source ownership.
    fn generation(&self) -> u64;
}

} // verus!
