//! Tests for the bounded priority queue: ordering, filtering, eviction
//! and batch extraction.

use cynic_scheduler::error::SchedulerError;
use cynic_scheduler::priority::{PriorityQueue, QueuedTransaction};
use cynic_scheduler::{ReputationScore, Verdict};

fn make_tx(sig: &str, fee: u64) -> QueuedTransaction {
    QueuedTransaction {
        signature: sig.to_string(),
        fee_payer: "test_payer".to_string(),
        priority_fee: fee,
        compute_units: 200_000,
        reputation: None,
        tx_offset: 0,
        tx_length: 100,
    }
}

fn with_verdict(verdict: Verdict) -> ReputationScore {
    ReputationScore {
        verdict,
        ..Default::default()
    }
}

#[test]
fn test_queue_basic() {
    let mut queue = PriorityQueue::new(100);

    let tx = make_tx("sig1", 1000);
    let rep = ReputationScore::default();

    assert!(queue.enqueue(tx, &rep).unwrap());
    assert_eq!(queue.len(), 1);

    let dequeued = queue.dequeue().unwrap();
    assert_eq!(dequeued.signature, "sig1");
    assert!(queue.is_empty());
}

#[test]
fn test_queue_priority_order() {
    let mut queue = PriorityQueue::new(100);

    queue.enqueue(make_tx("low", 100), &with_verdict(Verdict::Bark)).unwrap();
    queue.enqueue(make_tx("high", 100), &with_verdict(Verdict::Wag)).unwrap();
    queue.enqueue(make_tx("neutral", 100), &ReputationScore::default()).unwrap();

    // Equal fees: the verdict multipliers alone decide the order.
    assert_eq!(queue.dequeue().unwrap().signature, "high");
    assert_eq!(queue.dequeue().unwrap().signature, "neutral");
    assert_eq!(queue.dequeue().unwrap().signature, "low");
}

#[test]
fn test_growl_filter() {
    let mut queue = PriorityQueue::new(100);

    let tx = make_tx("growl_tx", 10000);
    let rep = with_verdict(Verdict::Growl);

    // Dropped, not admitted; the queue is left unchanged.
    assert!(!queue.enqueue(tx, &rep).unwrap());
    assert!(queue.is_empty());

    let stats = queue.stats();
    assert_eq!(stats.total_dropped, 1);
    assert_eq!(stats.total_enqueued, 0);
    assert_eq!(stats.current_size, 0);
}

#[test]
fn test_growl_filter_disabled() {
    let mut queue = PriorityQueue::with_drop_filter(100, false);
    let rep = with_verdict(Verdict::Growl);

    // With the queue-level filter off, a dangerous verdict is admitted
    // with a zero score and ranks last.
    assert!(queue.enqueue(make_tx("growl_tx", 10000), &rep).unwrap());
    assert!(queue.enqueue(make_tx("paying", 1), &ReputationScore::default()).unwrap());
    assert_eq!(queue.len(), 2);
    assert_eq!(queue.dequeue().unwrap().signature, "paying");
    assert_eq!(queue.dequeue().unwrap().signature, "growl_tx");
}

#[test]
fn test_batch_dequeue() {
    let mut queue = PriorityQueue::new(100);
    let rep = ReputationScore::default();

    for i in 0..10 {
        let tx = make_tx(&format!("tx{}", i), 100);
        queue.enqueue(tx, &rep).unwrap();
    }

    let batch = queue.dequeue_batch(5);
    assert_eq!(batch.len(), 5);
    assert_eq!(queue.len(), 5);
}

#[test]
fn test_batch_descending_and_exhausting() {
    let mut queue = PriorityQueue::new(100);
    let rep = ReputationScore::default();
    for (sig, fee) in [("a", 10), ("b", 40), ("c", 20), ("d", 30)] {
        queue.enqueue(make_tx(sig, fee), &rep).unwrap();
    }

    // Asking for more than resident returns exactly min(k, n), in
    // descending priority order, and empties the queue.
    let batch = queue.dequeue_batch(9);
    assert_eq!(batch.len(), 4);
    let sigs: Vec<&str> = batch.iter().map(|t| t.signature.as_str()).collect();
    assert_eq!(sigs, vec!["b", "d", "c", "a"]);
    assert!(queue.is_empty());
    assert_eq!(queue.stats().total_dequeued, 4);
}

#[test]
fn test_fifo_among_equal_scores() {
    let mut queue = PriorityQueue::new(100);
    let rep = ReputationScore::default();
    queue.enqueue(make_tx("first", 100), &rep).unwrap();
    queue.enqueue(make_tx("second", 100), &rep).unwrap();
    queue.enqueue(make_tx("third", 100), &rep).unwrap();

    // Equal scores leave in insertion order.
    assert_eq!(queue.dequeue().unwrap().signature, "first");
    assert_eq!(queue.dequeue().unwrap().signature, "second");
    assert_eq!(queue.dequeue().unwrap().signature, "third");
}

#[test]
fn test_full_queue_rejects_low_priority() {
    let mut queue = PriorityQueue::new(2);
    let rep = ReputationScore::default();
    queue.enqueue(make_tx("ten", 10), &rep).unwrap();
    queue.enqueue(make_tx("twenty", 20), &rep).unwrap();

    // Below the current minimum: rejected with a capacity error, and the
    // contents are unchanged.
    let r = queue.enqueue(make_tx("five", 5), &rep);
    assert!(matches!(r, Err(SchedulerError::Queue(_))));
    assert_eq!(queue.len(), 2);
    assert_eq!(queue.dequeue().unwrap().signature, "twenty");
    assert_eq!(queue.dequeue().unwrap().signature, "ten");
}

#[test]
fn test_full_queue_equal_priority_rejected() {
    let mut queue = PriorityQueue::new(2);
    let rep = ReputationScore::default();
    queue.enqueue(make_tx("ten", 10), &rep).unwrap();
    queue.enqueue(make_tx("twenty", 20), &rep).unwrap();

    // An equal score does not strictly exceed the minimum: the earlier
    // resident wins the tie and the newcomer is rejected.
    let r = queue.enqueue(make_tx("ten_again", 10), &rep);
    assert!(r.is_err());
    assert_eq!(queue.len(), 2);
}

#[test]
fn test_full_queue_evicts_minimum() {
    let mut queue = PriorityQueue::new(2);
    let rep = ReputationScore::default();
    queue.enqueue(make_tx("ten", 10), &rep).unwrap();
    queue.enqueue(make_tx("twenty", 20), &rep).unwrap();

    // Above the current minimum: exactly the minimum is evicted, the
    // newcomer admitted, net size unchanged.
    assert!(queue.enqueue(make_tx("fifteen", 15), &rep).unwrap());
    assert_eq!(queue.len(), 2);
    assert_eq!(queue.dequeue().unwrap().signature, "twenty");
    assert_eq!(queue.dequeue().unwrap().signature, "fifteen");
}

#[test]
fn test_duplicate_signature_replaces_in_place() {
    let mut queue = PriorityQueue::new(100);
    let rep = ReputationScore::default();
    queue.enqueue(make_tx("dup", 10), &rep).unwrap();
    queue.enqueue(make_tx("other", 50), &rep).unwrap();
    queue.enqueue(make_tx("dup", 999), &rep).unwrap();

    // Both the record and the ranking entry were replaced atomically.
    assert_eq!(queue.len(), 2);
    let first = queue.dequeue().unwrap();
    assert_eq!(first.signature, "dup");
    assert_eq!(first.priority_fee, 999);
    assert_eq!(queue.dequeue().unwrap().signature, "other");
}

#[test]
fn test_boost_reduce_counters() {
    let mut queue = PriorityQueue::new(100);
    queue.enqueue(make_tx("w", 1), &with_verdict(Verdict::Wag)).unwrap();
    queue.enqueue(make_tx("h", 1), &ReputationScore::default()).unwrap();
    queue.enqueue(make_tx("b", 1), &with_verdict(Verdict::Bark)).unwrap();

    let stats = queue.stats();
    assert_eq!(stats.total_enqueued, 3);
    assert_eq!(stats.total_boosted, 1);
    assert_eq!(stats.total_reduced, 1);
    assert_eq!(stats.current_size, 3);
}

#[test]
fn test_clear_resets_contents_keeps_counters() {
    let mut queue = PriorityQueue::new(100);
    let rep = ReputationScore::default();
    queue.enqueue(make_tx("a", 1), &rep).unwrap();
    queue.enqueue(make_tx("b", 2), &rep).unwrap();
    queue.clear();

    assert!(queue.is_empty());
    assert_eq!(queue.len(), 0);
    let stats = queue.stats();
    assert_eq!(stats.current_size, 0);
    assert_eq!(stats.total_enqueued, 2);
    assert!(queue.dequeue().is_none());
}

#[test]
fn test_dequeue_empty_returns_none() {
    let mut queue = PriorityQueue::new(4);
    assert!(queue.dequeue().is_none());
    assert_eq!(queue.dequeue_batch(3).len(), 0);
    assert_eq!(queue.stats().total_dequeued, 0);
}
