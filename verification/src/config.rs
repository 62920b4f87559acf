//! Configuration for the scheduler.

use vstd::prelude::*;
use crate::error::SchedulerError;
use crate::{MILLI_SCALE, PHI_INV_MILLI, PHI_MILLI};

verus! {

/// Scheduler configuration.
///
/// Durations are in milliseconds; multipliers are fixed-point thousandths
/// (φ is 1618); the minimum wallet score floor is in tenths.
#[derive(Debug, Clone)]
pub struct SchedulerConfig {
    /// Reputation service base URL.
    pub cynic_url: String,
    /// Reputation service API key.
    pub cynic_api_key: Option<String>,
    /// Maximum transactions in the priority queue.
    pub max_queue_size: usize,
    /// Batch size for worker messages.
    pub batch_size: usize,
    /// Number of worker threads.
    pub num_workers: usize,
    /// Timeout for reputation service calls, in milliseconds.
    pub api_timeout: u64,
    /// Cache duration for reputation scores, in milliseconds.
    pub reputation_cache_ttl: u64,
    /// Enable drop-filtering of dangerous-verdict transactions.
    pub enable_growl_filter: bool,
    /// Enable the priority boost for excellent verdicts.
    pub enable_wag_boost: bool,
    /// Minimum wallet score to allow a transaction, in tenths (0 = no filter).
    pub min_e_score: u64,
    /// Boost multiplier for excellent verdicts, in thousandths.
    pub wag_multiplier: u64,
    /// Reduction multiplier for suspicious verdicts, in thousandths.
    pub bark_multiplier: u64,
    /// Shared memory region name for the feed-to-pack queue.
    pub tpu_to_pack_shm: String,
    /// Shared memory region name prefix for pack-to-worker queues.
    pub pack_to_worker_shm_prefix: String,
    /// Shared memory region name prefix for worker-to-pack queues.
    pub worker_to_pack_shm_prefix: String,
    /// Shared memory region name for the progress tracker.
    pub progress_shm: String,
    /// Log level.
    pub log_level: String,
}

impl SchedulerConfig {
    /// A configuration is valid when every sizing parameter is positive,
    /// the boost multiplier is positive, and the reduction multiplier lies
    /// strictly between zero and one whole unit.
    pub open spec fn valid(self) -> bool {
        &&& self.max_queue_size > 0
        &&& self.batch_size > 0
        &&& self.num_workers > 0
        &&& self.wag_multiplier > 0
        &&& 0 < self.bark_multiplier < MILLI_SCALE
    }

    /// Validate the configuration, failing fast on any invalid parameter.
    pub fn validate(&self) -> (r: Result<(), SchedulerError>)
        ensures
            r is Ok <==> self.valid(),
            r is Err ==> r->Err_0 is Config,
    {
        if self.max_queue_size == 0 {
            return Err(SchedulerError::config("max_queue_size must be > 0".to_string()));
        }
        if self.batch_size == 0 {
            return Err(SchedulerError::config("batch_size must be > 0".to_string()));
        }
        if self.num_workers == 0 {
            return Err(SchedulerError::config("num_workers must be > 0".to_string()));
        }
        if self.wag_multiplier == 0 {
            return Err(SchedulerError::config("wag_multiplier must be > 0".to_string()));
        }
        if self.bark_multiplier == 0 || self.bark_multiplier >= MILLI_SCALE {
            return Err(SchedulerError::config("bark_multiplier must be in (0, 1)".to_string()));
        }
        Ok(())
    }
}

impl Default for SchedulerConfig {
    /// The documented defaults: queue of 100,000, batches of 64, 4 workers,
    /// a 100 ms service timeout, a 60 s cache TTL, both verdict policies
    /// enabled and no minimum score floor.
    fn default() -> (r: Self)
        ensures
            r.valid(),
            r.max_queue_size == 100_000,
            r.batch_size == 64,
            r.num_workers == 4,
            r.api_timeout == 100,
            r.reputation_cache_ttl == 60_000,
            r.enable_growl_filter,
            r.enable_wag_boost,
            r.min_e_score == 0,
            r.wag_multiplier == PHI_MILLI,
            r.bark_multiplier == PHI_INV_MILLI,
    {
        SchedulerConfig {
            cynic_url: "https://cynic-mcp.onrender.com".to_string(),
            cynic_api_key: None,
            max_queue_size: 100_000,
            batch_size: 64,
            num_workers: 4,
            api_timeout: 100,
            reputation_cache_ttl: 60_000,
            enable_growl_filter: true,
            enable_wag_boost: true,
            min_e_score: 0,
            wag_multiplier: PHI_MILLI,
            bark_multiplier: PHI_INV_MILLI,
            tpu_to_pack_shm: "/cynic_tpu_to_pack".to_string(),
            pack_to_worker_shm_prefix: "/cynic_pack_to_worker_".to_string(),
            worker_to_pack_shm_prefix: "/cynic_worker_to_pack_".to_string(),
            progress_shm: "/cynic_progress".to_string(),
            log_level: "info".to_string(),
        }
    }
}

} // verus!
