//! The scheduler: admission pipeline, lifecycle and statistics.
//!
//! The scheduler owns the priority queue and a strict linear lifecycle.
//! Reputation resolution happens outside: the caller resolves the fee
//! payer through the reputation cache (and, on a miss, the remote
//! service) and hands the resolved score to
//! [`CynicScheduler::process_transaction`], so no lock is ever held
//! across a network call and admission is verified for every score the
//! resolution can produce.

use vstd::prelude::*;
use crate::config::SchedulerConfig;
use crate::error::SchedulerError;
use crate::priority::{PriorityQueue, QueueStats, QueuedTransaction};
use crate::ReputationScore;

verus! {

/// Scheduler state.
#[derive(Debug, Clone, Copy, PartialEq, Eq, Structural)]
pub enum SchedulerState {
    /// Not yet started.
    Stopped,
    /// Starting up.
    Starting,
    /// Running and processing transactions.
    Running,
    /// Shutting down.
    Stopping,
}

/// What one `start` call does to the lifecycle: from `Stopped` it moves
/// through `Starting` to `Running` and succeeds; from any other state it
/// fails and moves nothing.
pub open spec fn spec_start(s: SchedulerState) -> (SchedulerState, bool) {
    if s is Stopped {
        (SchedulerState::Running, true)
    } else {
        (s, false)
    }
}

/// What one `stop` call does to the lifecycle: from `Running` it moves
/// through `Stopping` to `Stopped`; from any other state it is a no-op.
/// It always succeeds.
pub open spec fn spec_stop(s: SchedulerState) -> SchedulerState {
    if s is Running {
        SchedulerState::Stopped
    } else {
        s
    }
}

/// The lifecycle is strictly linear: starting from `Stopped` reaches
/// `Running`; a second `start` fails and leaves the state at `Running`;
/// `stop` when already `Stopped` is a successful no-op; `start` then
/// `stop` lands back at `Stopped`.
pub proof fn lemma_lifecycle()
    ensures
        spec_start(SchedulerState::Stopped) == (SchedulerState::Running, true),
        spec_start(spec_start(SchedulerState::Stopped).0).1 == false,
        spec_start(spec_start(SchedulerState::Stopped).0).0 == SchedulerState::Running,
        spec_stop(SchedulerState::Stopped) == SchedulerState::Stopped,
        spec_stop(spec_start(SchedulerState::Stopped).0) == SchedulerState::Stopped,
{
}

/// Scheduler statistics: the queue snapshot plus scheduler-level
/// counters.  Counters saturate instead of wrapping and are advisory.
#[derive(Debug, Clone, Copy)]
pub struct SchedulerStats {
    /// Queue statistics.
    pub queue: QueueStats,
    /// Total transactions received from the external feed.
    pub tpu_received: u64,
    /// Total transactions sent to workers.
    pub worker_sent: u64,
    /// Total execution results received.
    pub results_received: u64,
    /// Total successful executions.
    pub successful: u64,
    /// Total failed executions.
    pub failed: u64,
    /// Current slot.
    pub current_slot: u64,
    /// Whether this node currently leads.
    pub is_leader: bool,
    /// Reputation resolutions performed.
    pub cynic_api_calls: u64,
    /// Fresh entries in the reputation cache at the last snapshot.
    pub cynic_cache_hits: u64,
}

impl SchedulerStats {
    /// The all-zero statistics record.
    pub open spec fn spec_zero() -> SchedulerStats {
        SchedulerStats {
            queue: QueueStats::spec_zero(),
            tpu_received: 0,
            worker_sent: 0,
            results_received: 0,
            successful: 0,
            failed: 0,
            current_slot: 0,
            is_leader: false,
            cynic_api_calls: 0,
            cynic_cache_hits: 0,
        }
    }
}

impl Default for SchedulerStats {
    /// All counters start at zero.
    fn default() -> (r: Self)
        ensures
            r == SchedulerStats::spec_zero(),
    {
        SchedulerStats {
            queue: QueueStats::default(),
            tpu_received: 0,
            worker_sent: 0,
            results_received: 0,
            successful: 0,
            failed: 0,
            current_slot: 0,
            is_leader: false,
            cynic_api_calls: 0,
            cynic_cache_hits: 0,
        }
    }
}

/// Saturating addition on counters (shared with the queue statistics).
pub open spec fn sat64(a: u64, b: u64) -> u64 {
    crate::priority::sat_add64(a, b)
}

/// The φ-weighted transaction scheduler.  Callers that share one across
/// threads serialize each call under a lock; the reputation cache lives
/// outside this struct, behind its own lock, so queue extraction is
/// never blocked by a reputation miss.
pub struct CynicScheduler {
    config: SchedulerConfig,
    priority_queue: PriorityQueue,
    state: SchedulerState,
    running: bool,
    current_slot: u64,
    is_leader: bool,
    stats: SchedulerStats,
}

impl CynicScheduler {
    /// The configuration.
    pub closed spec fn config_spec(self) -> SchedulerConfig {
        self.config
    }

    /// The owned priority queue.
    pub closed spec fn queue_spec(self) -> PriorityQueue {
        self.priority_queue
    }

    /// The lifecycle state.
    pub closed spec fn state_spec(self) -> SchedulerState {
        self.state
    }

    /// The running flag.
    pub closed spec fn running_spec(self) -> bool {
        self.running
    }

    /// The current slot.
    pub closed spec fn slot_spec(self) -> u64 {
        self.current_slot
    }

    /// The leader flag.
    pub closed spec fn leader_spec(self) -> bool {
        self.is_leader
    }

    /// The scheduler-level statistics.
    pub closed spec fn stats_spec(self) -> SchedulerStats {
        self.stats
    }

    /// Well-formed: the configuration is valid and the queue invariant
    /// holds.
    pub open spec fn wf(self) -> bool {
        &&& self.config_spec().valid()
        &&& self.queue_spec().wf()
    }

    /// The queue does not move.
    pub open spec fn same_queue(pre: Self, post: Self) -> bool {
        post.queue_spec() == pre.queue_spec()
    }

    /// Create a new scheduler from a configuration; fails fast if and
    /// only if the configuration is invalid.
    pub fn new(config: SchedulerConfig) -> (r: Result<Self, SchedulerError>)
        ensures
            r is Ok <==> config.valid(),
            r is Err ==> r->Err_0 is Config,
            r is Ok ==> ({
                let s = r->Ok_0;
                &&& s.wf()
                &&& s.config_spec() == config
                &&& s.state_spec() is Stopped
                &&& !s.running_spec()
                &&& s.slot_spec() == 0
                &&& !s.leader_spec()
                &&& s.stats_spec() == SchedulerStats::spec_zero()
                &&& s.queue_spec().prios() == crate::priority::dpq_empty()
                &&& s.queue_spec().max_size_spec() == config.max_queue_size
                &&& s.queue_spec().drop_filter_spec()
            }),
    {
        match config.validate() {
            Err(e) => Err(e),
            Ok(_) => {
                let priority_queue = PriorityQueue::new(config.max_queue_size);
                Ok(
                    CynicScheduler {
                        config,
                        priority_queue,
                        state: SchedulerState::Stopped,
                        running: false,
                        current_slot: 0,
                        is_leader: false,
                        stats: SchedulerStats::default(),
                    },
                )
            },
        }
    }

    /// Start the scheduler.  Fails with an internal error when it is not
    /// stopped; otherwise passes through `Starting` and lands `Running`.
    pub fn start(&mut self) -> (r: Result<(), SchedulerError>)
        ensures
            final(self).state_spec() == spec_start(old(self).state_spec()).0,
            (r is Ok) == spec_start(old(self).state_spec()).1,
            r is Err ==> r->Err_0 is Internal,
            final(self).running_spec() == (if r is Ok {
                true
            } else {
                old(self).running_spec()
            }),
            CynicScheduler::same_queue(*old(self), *final(self)),
            final(self).config_spec() == old(self).config_spec(),
            final(self).slot_spec() == old(self).slot_spec(),
            final(self).leader_spec() == old(self).leader_spec(),
            final(self).stats_spec() == old(self).stats_spec(),
            old(self).wf() ==> final(self).wf(),
    {
        match self.state {
            SchedulerState::Stopped => {
                self.state = SchedulerState::Starting;
                self.running = true;
                self.state = SchedulerState::Running;
                Ok(())
            },
            _ => Err(SchedulerError::internal("Scheduler already running".to_string())),
        }
    }

    /// Stop the scheduler.  A no-op unless it is running; never fails.
    pub fn stop(&mut self) -> (r: Result<(), SchedulerError>)
        ensures
            r is Ok,
            final(self).state_spec() == spec_stop(old(self).state_spec()),
            final(self).running_spec() == (if old(self).state_spec() is Running {
                false
            } else {
                old(self).running_spec()
            }),
            CynicScheduler::same_queue(*old(self), *final(self)),
            final(self).config_spec() == old(self).config_spec(),
            final(self).slot_spec() == old(self).slot_spec(),
            final(self).leader_spec() == old(self).leader_spec(),
            final(self).stats_spec() == old(self).stats_spec(),
            old(self).wf() ==> final(self).wf(),
    {
        match self.state {
            SchedulerState::Running => {
                self.state = SchedulerState::Stopping;
                self.running = false;
                self.state = SchedulerState::Stopped;
                Ok(())
            },
            _ => Ok(()),
        }
    }

    /// The admission policy applied before the queue is touched: a
    /// dangerous verdict is filtered when the global filter is on, and a
    /// wallet score below a configured positive floor is filtered.
    pub open spec fn spec_filtered(config: SchedulerConfig, rep: ReputationScore) -> bool {
        ||| (config.enable_growl_filter && rep.verdict is Growl)
        ||| (config.min_e_score > 0 && rep.e_score is Some && rep.e_score->0 < config.min_e_score)
    }

    /// The queued transaction an admission builds, carrying the resolved
    /// reputation.
    pub open spec fn spec_admitted_tx(
        signature: String,
        fee_payer: String,
        priority_fee: u64,
        compute_units: u64,
        tx_offset: usize,
        tx_length: u32,
        rep: ReputationScore,
    ) -> QueuedTransaction {
        QueuedTransaction {
            signature,
            fee_payer,
            priority_fee,
            compute_units,
            reputation: Some(rep),
            tx_offset,
            tx_length,
        }
    }

    /// Process an incoming transaction under an already-resolved
    /// reputation score.
    ///
    /// Returns `Ok(false)` when policy filtered the transaction before it
    /// ever reached the queue, and otherwise exactly what the queue's
    /// insertion returned: `Ok(true)` on admission, `Ok(false)` when the
    /// queue itself dropped it, and a queue error on capacity rejection.
    pub fn process_transaction(
        &mut self,
        signature: String,
        fee_payer: String,
        priority_fee: u64,
        compute_units: u64,
        tx_offset: usize,
        tx_length: u32,
        reputation: &ReputationScore,
    ) -> (r: Result<bool, SchedulerError>)
        requires
            old(self).wf(),
        ensures
            final(self).wf(),
            final(self).stats_spec() == (SchedulerStats {
                tpu_received: sat64(old(self).stats_spec().tpu_received, 1),
                cynic_api_calls: sat64(old(self).stats_spec().cynic_api_calls, 1),
                ..old(self).stats_spec()
            }),
            final(self).state_spec() == old(self).state_spec(),
            final(self).running_spec() == old(self).running_spec(),
            final(self).slot_spec() == old(self).slot_spec(),
            final(self).leader_spec() == old(self).leader_spec(),
            final(self).config_spec() == old(self).config_spec(),
            if CynicScheduler::spec_filtered(old(self).config_spec(), *reputation) {
                &&& r == Ok::<bool, SchedulerError>(false)
                &&& CynicScheduler::same_queue(*old(self), *final(self))
            } else {
                PriorityQueue::enqueue_transition(
                    old(self).queue_spec(),
                    CynicScheduler::spec_admitted_tx(
                        signature,
                        fee_payer,
                        priority_fee,
                        compute_units,
                        tx_offset,
                        tx_length,
                        *reputation,
                    ),
                    *reputation,
                    final(self).queue_spec(),
                    r,
                )
            },
    {
        self.stats.tpu_received = self.stats.tpu_received.saturating_add(1);
        self.stats.cynic_api_calls = self.stats.cynic_api_calls.saturating_add(1);

        // Global drop filter, checked before the queue's own.
        if self.config.enable_growl_filter && reputation.verdict.should_drop() {
            return Ok(false);
        }

        // Minimum wallet-score floor, when configured.
        if self.config.min_e_score > 0 {
            match reputation.e_score {
                Some(e_score) => {
                    if e_score < self.config.min_e_score {
                        return Ok(false);
                    }
                },
                None => {},
            }
        }

        let tx = QueuedTransaction {
            signature,
            fee_payer,
            priority_fee,
            compute_units,
            reputation: Some(*reputation),
            tx_offset,
            tx_length,
        };
        self.priority_queue.enqueue(tx, reputation)
    }

    /// Get a batch of transactions for block packing, in descending
    /// priority order.
    pub fn get_batch(&mut self, max_size: usize) -> (r: Vec<QueuedTransaction>)
        requires
            old(self).wf(),
        ensures
            final(self).wf(),
            PriorityQueue::batch_transition(
                old(self).queue_spec(),
                max_size,
                final(self).queue_spec(),
                r@,
            ),
            final(self).stats_spec() == (SchedulerStats {
                worker_sent: sat64(old(self).stats_spec().worker_sent, r@.len() as u64),
                ..old(self).stats_spec()
            }),
            final(self).state_spec() == old(self).state_spec(),
            final(self).running_spec() == old(self).running_spec(),
            final(self).slot_spec() == old(self).slot_spec(),
            final(self).leader_spec() == old(self).leader_spec(),
            final(self).config_spec() == old(self).config_spec(),
    {
        let batch = self.priority_queue.dequeue_batch(max_size);
        self.stats.worker_sent = self.stats.worker_sent.saturating_add(batch.len() as u64);
        batch
    }

    /// Update slot and leader status from the external progress tracker.
    /// A pure statistics sink: admission logic never reads these.
    pub fn update_progress(&mut self, slot: u64, is_leader: bool)
        ensures
            final(self).slot_spec() == slot,
            final(self).leader_spec() == is_leader,
            final(self).stats_spec() == (SchedulerStats {
                current_slot: slot,
                is_leader,
                ..old(self).stats_spec()
            }),
            final(self).state_spec() == old(self).state_spec(),
            final(self).running_spec() == old(self).running_spec(),
            final(self).config_spec() == old(self).config_spec(),
            CynicScheduler::same_queue(*old(self), *final(self)),
            old(self).wf() ==> final(self).wf(),
    {
        self.current_slot = slot;
        self.is_leader = is_leader;
        self.stats.current_slot = slot;
        self.stats.is_leader = is_leader;
    }

    /// Record an execution result.  A pure statistics sink.
    pub fn record_result(&mut self, success: bool)
        ensures
            final(self).stats_spec() == (SchedulerStats {
                results_received: sat64(old(self).stats_spec().results_received, 1),
                successful: sat64(
                    old(self).stats_spec().successful,
                    if success {
                        1
                    } else {
                        0
                    },
                ),
                failed: sat64(
                    old(self).stats_spec().failed,
                    if success {
                        0
                    } else {
                        1
                    },
                ),
                ..old(self).stats_spec()
            }),
            final(self).state_spec() == old(self).state_spec(),
            final(self).running_spec() == old(self).running_spec(),
            final(self).slot_spec() == old(self).slot_spec(),
            final(self).leader_spec() == old(self).leader_spec(),
            final(self).config_spec() == old(self).config_spec(),
            CynicScheduler::same_queue(*old(self), *final(self)),
            old(self).wf() ==> final(self).wf(),
    {
        self.stats.results_received = self.stats.results_received.saturating_add(1);
        if success {
            self.stats.successful = self.stats.successful.saturating_add(1);
        } else {
            self.stats.failed = self.stats.failed.saturating_add(1);
        }
    }

    /// Compose a point-in-time statistics snapshot: the scheduler-level
    /// counters, a fresh queue snapshot, and the caller-supplied count of
    /// fresh reputation cache entries.
    pub fn stats(&self, cache_valid: u64) -> (r: SchedulerStats)
        ensures
            r == (SchedulerStats {
                queue: self.queue_spec().stats_spec(),
                cynic_cache_hits: cache_valid,
                ..self.stats_spec()
            }),
    {
        let mut out = self.stats;
        out.queue = self.priority_queue.stats();
        out.cynic_cache_hits = cache_valid;
        out
    }

    /// Get the current lifecycle state.
    pub fn state(&self) -> (r: SchedulerState)
        ensures
            r == self.state_spec(),
    {
        self.state
    }

    /// Check whether the scheduler is running.
    pub fn is_running(&self) -> (r: bool)
        ensures
            r == self.running_spec(),
    {
        self.running
    }

    /// Get the current slot.
    pub fn current_slot(&self) -> (r: u64)
        ensures
            r == self.slot_spec(),
    {
        self.current_slot
    }

    /// Check whether this node currently leads.
    pub fn is_leader(&self) -> (r: bool)
        ensures
            r == self.leader_spec(),
    {
        self.is_leader
    }

    /// Get the current queue length.
    pub fn queue_len(&self) -> (r: usize)
        ensures
            r == self.queue_spec().prios().len(),
    {
        self.priority_queue.len()
    }
}

} // verus!
