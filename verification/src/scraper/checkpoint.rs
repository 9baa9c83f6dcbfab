//! Revisioned checkpoint contract used by local and shared stores.

use crate::scraper::cursor::{CheckpointFingerprint, Cursor};
use vstd::prelude::*;

verus! {

/// Progress as it is stored.
pub struct Checkpoint {
    /// The version of the stored form.
    pub format_version: u32,
    /// Which write this is.
    pub revision: u64,
    /// What the progress is of.
    pub identity: CheckpointIdentity,
    /// The last committed position; none before the first commit.
    pub committed_cursor: Option<Cursor>,
    /// Guards the stored form.
    pub checksum: String,
}

/// What progress is of.
#[derive(Debug)]
pub struct CheckpointIdentity {
    /// The source.
    pub source_id: String,
    /// Covers database and query identity, cursor definition, mapping, and delivery
    /// profile so that incompatible state is never silently reused.
    pub compatibility_fingerprint: CheckpointFingerprint,
}

/// Keeps checkpoints. A write succeeds only over the revision it expects.
pub trait CheckpointStore {
    /// Loads the checkpoint of an identity, if there is one.
    fn load(&self, identity: &CheckpointIdentity) -> Result<Option<Checkpoint>, CheckpointError>;

    /// Stores a checkpoint over the expected revision.
    fn compare_and_set(
        &self,
        identity: &CheckpointIdentity,
        expected_revision: u64,
        next: &Checkpoint,
    ) -> Result<(), CheckpointError>;

    /// Checks that checkpoints can be stored.
    fn probe(&self) -> Result<(), CheckpointError>;
}

/// Keeps checkpoints in local files: bounded, locked, written beside and renamed over.
#[derive(Debug)]
pub struct LocalFileCheckpointStore {
    /// The directory that holds the files.
    pub directory: String,
}

/// Why a checkpoint could not be used.
#[derive(Clone, Copy, Debug, PartialEq, Eq, Structural)]
pub enum CheckpointError {
    /// There is none.
    NotFound,
    /// Its guard does not match.
    Corrupt,
    /// It is in a version that is not read.
    UnsupportedVersion,
    /// It is of something else.
    FingerprintMismatch,
    /// Another write came first.
    RevisionConflict,
    /// Storage failed.
    Io,
    /// It took too long.
    DeadlineExceeded,
}

} // verus!
