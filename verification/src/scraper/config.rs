//! Vendor-neutral configuration owned by the shared polling runtime.

use crate::time::Duration;
use vstd::prelude::*;

verus! {

/// Settings of one source.
#[derive(Debug)]
pub struct ScraperConfig {
    /// The source's identity.
    pub source_id: String,
    /// When it is polled.
    pub schedule: ScheduleConfig,
    /// How much is read at a time.
    pub limits: LimitsConfig,
    /// Where its progress is kept.
    pub checkpoint: CheckpointConfig,
    /// When its rows count as delivered.
    pub delivery: DeliveryConfig,
}

/// When a source is polled.
#[derive(Clone, Copy, Debug)]
pub struct ScheduleConfig {
    /// Delay between polls.
    pub interval: Duration,
    /// Deadline of one query.
    pub query_timeout: Duration,
    /// Delay before a retry.
    pub retry_backoff: Duration,
}

/// How much is read at a time.
#[derive(Clone, Copy, Debug, PartialEq, Eq, Structural)]
pub struct LimitsConfig {
    /// Rows of one page.
    pub max_rows_per_page: usize,
    /// Normalized bytes of one page.
    pub max_normalized_bytes_per_page: usize,
    /// Encoded bytes of one batch.
    pub max_encoded_bytes_per_batch: usize,
    /// Publications not acknowledged yet.
    pub max_pending_publications: usize,
}

/// Where progress is kept.
#[derive(Debug)]
pub struct CheckpointConfig {
    /// The directory that holds checkpoints.
    pub directory: String,
    /// The version that checkpoints are written in.
    pub schema_version: u32,
    /// The most bytes of one checkpoint.
    pub max_serialized_bytes: usize,
}

/// When rows count as delivered.
#[derive(Clone, Copy, Debug)]
pub struct DeliveryConfig {
    /// How long an acknowledgement is waited for.
    pub acknowledgement_timeout: Duration,
    /// Who acknowledges.
    pub boundary: DeliveryBoundary,
}

/// Who acknowledges a delivery.
#[derive(Clone, Copy, Debug, PartialEq, Eq, Structural)]
pub enum DeliveryBoundary {
    /// The remote OTLP receiver.
    RemoteOtlpReceiver,
    /// A durable buffer on the way.
    DurableBuffer,
    /// The last exporter of the pipeline.
    FinalExporter,
}

} // verus!
