//! Explicit lifecycle states shared by all vendor receivers.

use crate::time::Instant;
use vstd::prelude::*;

verus! {

/// Where a receiver stands.
#[derive(Clone, Copy, Debug, PartialEq, Eq, Structural)]
pub enum LifecycleState {
    Starting,
    Idle,
    Querying,
    AwaitingDelivery,
    CommittingCheckpoint,
    BackingOff,
    Draining,
    Stopped,
    Failed,
}

/// What a receiver is told.
#[derive(Clone, Copy, Debug, PartialEq, Eq, Structural)]
pub enum LifecycleCommand {
    PollEligible,
    MemoryPressureChanged,
    CollectTelemetry,
    Drain { deadline: Instant },
    Shutdown { deadline: Instant },
}

} // verus!
