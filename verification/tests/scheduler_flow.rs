//! Tests for the scheduler: configuration, lifecycle, admission policy,
//! batching and statistics.

use cynic_scheduler::config::SchedulerConfig;
use cynic_scheduler::error::SchedulerError;
use cynic_scheduler::scheduler::{CynicScheduler, SchedulerState};
use cynic_scheduler::{ReputationScore, Verdict, PHI_INV_MILLI, PHI_MILLI};

#[test]
fn test_default_config() {
    let config = SchedulerConfig::default();
    assert!(config.validate().is_ok());
    assert_eq!(config.wag_multiplier, PHI_MILLI);
    assert_eq!(config.bark_multiplier, PHI_INV_MILLI);
}

#[test]
fn test_invalid_config() {
    let mut config = SchedulerConfig::default();
    config.max_queue_size = 0;
    assert!(config.validate().is_err());
}

#[test]
fn test_each_invalid_config_field() {
    let mut c = SchedulerConfig::default();
    c.batch_size = 0;
    assert!(matches!(c.validate(), Err(SchedulerError::Config(_))));

    let mut c = SchedulerConfig::default();
    c.num_workers = 0;
    assert!(matches!(c.validate(), Err(SchedulerError::Config(_))));

    let mut c = SchedulerConfig::default();
    c.wag_multiplier = 0;
    assert!(matches!(c.validate(), Err(SchedulerError::Config(_))));

    let mut c = SchedulerConfig::default();
    c.bark_multiplier = 0;
    assert!(matches!(c.validate(), Err(SchedulerError::Config(_))));

    let mut c = SchedulerConfig::default();
    c.bark_multiplier = 1000;
    assert!(matches!(c.validate(), Err(SchedulerError::Config(_))));
}

#[test]
fn test_error_constructors() {
    assert!(matches!(SchedulerError::config("x".to_string()), SchedulerError::Config(_)));
    assert!(matches!(SchedulerError::cynic_api("x".to_string()), SchedulerError::CynicApi(_)));
    assert!(matches!(
        SchedulerError::tx_parse("x".to_string()),
        SchedulerError::TransactionParse(_)
    ));
    assert!(matches!(SchedulerError::queue("x".to_string()), SchedulerError::Queue(_)));
    assert!(matches!(
        SchedulerError::shared_memory("x".to_string()),
        SchedulerError::SharedMemory(_)
    ));
    assert!(matches!(
        SchedulerError::worker_comm("x".to_string()),
        SchedulerError::WorkerComm(_)
    ));
    assert!(matches!(SchedulerError::timeout("x".to_string()), SchedulerError::Timeout(_)));
    assert!(matches!(SchedulerError::internal("x".to_string()), SchedulerError::Internal(_)));
}

#[test]
fn test_scheduler_creation() {
    let config = SchedulerConfig::default();
    let scheduler = CynicScheduler::new(config);
    assert!(scheduler.is_ok());
}

#[test]
fn test_scheduler_creation_rejects_invalid_config() {
    let mut config = SchedulerConfig::default();
    config.num_workers = 0;
    assert!(matches!(CynicScheduler::new(config), Err(SchedulerError::Config(_))));
}

#[test]
fn test_scheduler_start_stop() {
    let config = SchedulerConfig::default();
    let mut scheduler = CynicScheduler::new(config).unwrap();

    assert_eq!(scheduler.state(), SchedulerState::Stopped);

    scheduler.start().unwrap();
    assert_eq!(scheduler.state(), SchedulerState::Running);

    scheduler.stop().unwrap();
    assert_eq!(scheduler.state(), SchedulerState::Stopped);
}

#[test]
fn test_start_twice_errors() {
    let mut scheduler = CynicScheduler::new(SchedulerConfig::default()).unwrap();
    scheduler.start().unwrap();

    // The second start fails and leaves the state at Running.
    let second = scheduler.start();
    assert!(matches!(second, Err(SchedulerError::Internal(_))));
    assert_eq!(scheduler.state(), SchedulerState::Running);
    assert!(scheduler.is_running());
}

#[test]
fn test_stop_when_stopped_is_noop() {
    let mut scheduler = CynicScheduler::new(SchedulerConfig::default()).unwrap();
    assert!(scheduler.stop().is_ok());
    assert_eq!(scheduler.state(), SchedulerState::Stopped);
    assert!(!scheduler.is_running());

    scheduler.start().unwrap();
    scheduler.stop().unwrap();
    assert_eq!(scheduler.state(), SchedulerState::Stopped);
    assert!(!scheduler.is_running());
}

fn submit(
    scheduler: &mut CynicScheduler,
    sig: &str,
    fee: u64,
    rep: &ReputationScore,
) -> Result<bool, SchedulerError> {
    scheduler.process_transaction(
        sig.to_string(),
        "payer".to_string(),
        fee,
        200_000,
        0,
        100,
        rep,
    )
}

#[test]
fn test_admission_and_batch() {
    let mut scheduler = CynicScheduler::new(SchedulerConfig::default()).unwrap();
    let rep = ReputationScore::default();
    let wag = ReputationScore {
        verdict: Verdict::Wag,
        ..Default::default()
    };

    assert!(submit(&mut scheduler, "n1", 100, &rep).unwrap());
    assert!(submit(&mut scheduler, "w1", 100, &wag).unwrap());
    assert_eq!(scheduler.queue_len(), 2);

    let batch = scheduler.get_batch(10);
    assert_eq!(batch.len(), 2);
    assert_eq!(batch[0].signature, "w1");
    assert_eq!(batch[1].signature, "n1");
    assert_eq!(scheduler.queue_len(), 0);

    let stats = scheduler.stats(0);
    assert_eq!(stats.tpu_received, 2);
    assert_eq!(stats.worker_sent, 2);
    assert_eq!(stats.queue.total_enqueued, 2);
    assert_eq!(stats.queue.total_dequeued, 2);
}

#[test]
fn test_admission_growl_filtered() {
    let mut scheduler = CynicScheduler::new(SchedulerConfig::default()).unwrap();
    let growl = ReputationScore {
        verdict: Verdict::Growl,
        ..Default::default()
    };

    // Filtered by policy before the queue is touched.
    assert_eq!(submit(&mut scheduler, "g1", 10_000, &growl).unwrap(), false);
    assert_eq!(scheduler.queue_len(), 0);
    let stats = scheduler.stats(0);
    assert_eq!(stats.tpu_received, 1);
    assert_eq!(stats.queue.total_dropped, 0);
}

#[test]
fn test_admission_escore_floor() {
    let mut config = SchedulerConfig::default();
    config.min_e_score = 100;
    let mut scheduler = CynicScheduler::new(config).unwrap();

    let low = ReputationScore {
        e_score: Some(50),
        ..Default::default()
    };
    let high = ReputationScore {
        e_score: Some(150),
        ..Default::default()
    };
    let unknown = ReputationScore::default();

    assert_eq!(submit(&mut scheduler, "low", 100, &low).unwrap(), false);
    assert!(submit(&mut scheduler, "high", 100, &high).unwrap());
    // A transaction with no wallet score is not subject to the floor.
    assert!(submit(&mut scheduler, "unknown", 100, &unknown).unwrap());
    assert_eq!(scheduler.queue_len(), 2);
}

#[test]
fn test_admitted_transaction_carries_reputation() {
    let mut scheduler = CynicScheduler::new(SchedulerConfig::default()).unwrap();
    let wag = ReputationScore {
        verdict: Verdict::Wag,
        ..Default::default()
    };
    submit(&mut scheduler, "w1", 42, &wag).unwrap();

    let batch = scheduler.get_batch(1);
    assert_eq!(batch.len(), 1);
    assert_eq!(batch[0].priority_fee, 42);
    assert_eq!(batch[0].fee_payer, "payer");
    let carried = batch[0].reputation.as_ref().unwrap();
    assert_eq!(carried.verdict, Verdict::Wag);
}

#[test]
fn test_progress_and_results() {
    let mut scheduler = CynicScheduler::new(SchedulerConfig::default()).unwrap();
    scheduler.update_progress(777, true);
    assert_eq!(scheduler.current_slot(), 777);
    assert!(scheduler.is_leader());

    scheduler.record_result(true);
    scheduler.record_result(true);
    scheduler.record_result(false);

    let stats = scheduler.stats(9);
    assert_eq!(stats.current_slot, 777);
    assert!(stats.is_leader);
    assert_eq!(stats.results_received, 3);
    assert_eq!(stats.successful, 2);
    assert_eq!(stats.failed, 1);
    assert_eq!(stats.cynic_cache_hits, 9);
}
