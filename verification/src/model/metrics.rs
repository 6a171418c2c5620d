//! The observability schema: plain records of worker and coordinator state. A value
//! that nothing owns is kept as `None`, never made up.
use vstd::prelude::*;
use crate::model::types::{ModelId, WorkerId};

verus! {

/// The schema version, raised whenever a field is added, removed or changes meaning.
pub const METRICS_SCHEMA_VERSION: u32 = 1;

/// What a worker is doing.
#[derive(Debug, Clone, Copy, PartialEq, Eq, Structural)]
pub enum WorkerLifecycleState {
    Idle,
    Loading,
    Running,
}

/// Whether a worker's model is loaded.
#[derive(Debug, Clone, Copy, PartialEq, Eq, Structural)]
pub enum ModelLoadState {
    NotLoaded,
    Loading,
    Loaded,
}

/// Who a worker is and how long it has been up.
#[derive(Debug, PartialEq)]
pub struct WorkerIdentityMetrics {
    pub worker_id: WorkerId,
    pub uptime_seconds: u64,
    pub lifecycle_state: WorkerLifecycleState,
}

/// A worker's job queue.
#[derive(Debug, Clone, Copy, PartialEq, Eq, Structural)]
pub struct QueueMetrics {
    pub capacity: usize,
    pub depth: usize,
}

/// Counts of a worker's jobs.
#[derive(Debug, Clone, Copy, PartialEq, Eq, Structural)]
pub struct JobMetrics {
    pub active: usize,
    pub completed: u64,
    pub failed: u64,
    pub cancelled: u64,
    pub cumulative_tokens_processed: u64,
}

impl Default for JobMetrics {
    /// No jobs.
    fn default() -> (r: Self)
        ensures
            r == (JobMetrics {
                active: 0,
                completed: 0,
                failed: 0,
                cancelled: 0,
                cumulative_tokens_processed: 0,
            }),
    {
        JobMetrics { active: 0, completed: 0, failed: 0, cancelled: 0, cumulative_tokens_processed: 0 }
    }
}

/// A worker's model.
#[derive(Debug, PartialEq)]
pub struct ModelMetrics {
    pub loaded_model_id: Option<ModelId>,
    pub load_state: ModelLoadState,
    pub last_load_duration_ms: Option<u64>,
}

/// How long a routing decision took.
#[derive(Debug, Clone, Copy, PartialEq, Eq, Structural)]
pub struct SchedulerDecisionMetrics {
    pub duration_micros: u64,
}

/// How current the benchmark for a (worker, model) pair is. `age_seconds` is `None`
/// when there is no record at all, which differs from a record that exists but no
/// longer matches (`fingerprint_valid` false).
#[derive(Debug, PartialEq)]
pub struct BenchmarkFreshness {
    pub worker_id: WorkerId,
    pub model_id: ModelId,
    pub age_seconds: Option<u64>,
    pub fingerprint_valid: bool,
}

/// The coordinator's view of its workers and jobs.
#[derive(Debug, PartialEq)]
pub struct CoordinatorMetricsSnapshot {
    pub schema_version: u32,
    pub timestamp_unix_ms: u64,
    pub known_workers: usize,
    pub connected_workers: usize,
    pub active_jobs: usize,
    pub queued_jobs: usize,
    pub successful_jobs: u64,
    pub failed_jobs: u64,
    /// Nothing owns this measurement yet, so it is `None`.
    pub scheduler_decision: Option<SchedulerDecisionMetrics>,
    pub benchmarks: Vec<BenchmarkFreshness>,
}

} // verus!
