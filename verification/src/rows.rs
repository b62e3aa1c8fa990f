//! The stored rows that the alerting, rollup and series logic read: one
//! round of a check, and one rollup bucket.
use vstd::prelude::*;

verus! {

/// A stored round of a check: when it was scheduled and ran, how it
/// executed, its sample counters and latency figures, and its encoded
/// samples.
#[derive(Debug, Clone)]
pub struct RoundRow {
    pub internal_id: i64,
    pub check_internal_id: i64,
    pub observer_internal_id: i64,
    pub scheduled_at: String,
    pub started_at: Option<String>,
    pub finished_at: Option<String>,
    pub execution_status: String,
    pub stop_reason: Option<String>,
    pub configured_samples: i32,
    pub attempted_samples: i32,
    pub latency_bearing_samples: i32,
    pub healthy_samples: i32,
    pub unhealthy_samples: i32,
    pub measurement_loss_samples: i32,
    pub min_latency_ns: Option<i64>,
    pub median_latency_ns: Option<i64>,
    pub max_latency_ns: Option<i64>,
    pub sample_blob: Option<Vec<u8>>,
    pub outcome_summary: Option<String>,
    pub config_generation: Option<String>,
    pub check_revision_id: Option<String>,
    pub created_at: String,
}

/// A stored rollup bucket: the rounds of one check and observer within
/// one bucket of a resolution, summed.
#[derive(Debug, Clone)]
pub struct RollupRow {
    pub check_internal_id: i64,
    pub observer_internal_id: i64,
    pub resolution_seconds: i64,
    pub bucket_start: String,
    pub scheduled_rounds: i64,
    pub completed_rounds: i64,
    pub partial_rounds: i64,
    pub configured_sample_slots: i64,
    pub attempted_samples: i64,
    pub latency_bearing_samples: i64,
    pub healthy_samples: i64,
    pub unhealthy_samples: i64,
    pub measurement_loss_samples: i64,
    pub outcome_counts: String,
    pub min_latency_ns: Option<i64>,
    pub max_latency_ns: Option<i64>,
    pub sum_latency_ns: i64,
    pub histogram_version: i64,
    pub histogram_blob: Option<Vec<u8>>,
    pub no_data_counts: String,
}

} // verus!
