//! Tests for the reputation cache: hits within the TTL, misses after it,
//! the confidence cap, and the capacity sweep.

use cynic_scheduler::cynic_client::{token_cache_key, wallet_cache_key, RemoteJudgment, ReputationCache};
use cynic_scheduler::{Verdict, MAX_CONFIDENCE_TENTHS};

fn judgment(confidence: u64) -> RemoteJudgment {
    RemoteJudgment {
        q_score: 800,
        verdict: Verdict::Wag,
        k_score: None,
        e_score: Some(700),
        confidence,
    }
}

#[test]
fn test_cache_hit_within_ttl() {
    let mut cache = ReputationCache::new(1000);
    let key = "wallet:alice".to_string();

    // Before anything is cached, a lookup misses: a remote call follows.
    assert!(cache.get_cached(&key, 0).is_none());

    let stored = cache.resolve(&key, Some(judgment(400)), 0);

    // A second lookup of the same subject within the TTL hits the cache,
    // so no further remote call is performed.
    let hit = cache.get_cached(&key, 500).expect("fresh entry must hit");
    assert_eq!(hit.q_score, stored.q_score);
    assert_eq!(hit.verdict, Verdict::Wag);
    assert_eq!(hit.confidence, 400);
    assert!(cache.get_cached(&key, 999).is_some());
}

#[test]
fn test_cache_miss_after_ttl() {
    let mut cache = ReputationCache::new(1000);
    let key = "wallet:bob".to_string();
    cache.resolve(&key, Some(judgment(100)), 0);

    // Exactly at the TTL the entry is stale: the next lookup misses and
    // one remote call refreshes it.
    assert!(cache.get_cached(&key, 1000).is_none());
    cache.resolve(&key, Some(judgment(200)), 1000);
    let hit = cache.get_cached(&key, 1500).expect("refreshed entry must hit");
    assert_eq!(hit.confidence, 200);
}

#[test]
fn test_confidence_capped() {
    let mut cache = ReputationCache::new(1000);
    let key = "wallet:carol".to_string();

    // An absurdly confident upstream value is clamped to 61.8%.
    let stored = cache.resolve(&key, Some(judgment(10_000)), 0);
    assert_eq!(stored.confidence, MAX_CONFIDENCE_TENTHS);
    let hit = cache.get_cached(&key, 1).unwrap();
    assert_eq!(hit.confidence, 618);

    // A value over 100% but under the cap in percent terms is also capped.
    let stored2 = cache.resolve(&"wallet:dan".to_string(), Some(judgment(1001)), 0);
    assert_eq!(stored2.confidence, MAX_CONFIDENCE_TENTHS);

    // A modest value passes through untouched.
    let stored3 = cache.resolve(&"wallet:eve".to_string(), Some(judgment(617)), 0);
    assert_eq!(stored3.confidence, 617);
}

#[test]
fn test_resolve_failure_yields_default() {
    let mut cache = ReputationCache::new(1000);
    let key = "wallet:flaky".to_string();

    // A failed or unusable remote outcome resolves to the neutral
    // default, which is cached like any other score.
    let score = cache.resolve(&key, None, 0);
    assert_eq!(score.q_score, 500);
    assert_eq!(score.verdict, Verdict::Howl);
    assert_eq!(score.confidence, 618);
    assert!(score.e_score.is_none());
    let hit = cache.get_cached(&key, 10).unwrap();
    assert_eq!(hit.verdict, Verdict::Howl);
}

#[test]
fn test_cache_stats_and_clear() {
    let mut cache = ReputationCache::new(100);
    cache.resolve(&"a".to_string(), Some(judgment(1)), 0);
    cache.resolve(&"b".to_string(), Some(judgment(2)), 50);

    // At time 120, "a" (age 120) is stale and "b" (age 70) is fresh.
    let (valid, total) = cache.cache_stats(120);
    assert_eq!(total, 2);
    assert_eq!(valid, 1);

    cache.clear_cache();
    let (valid2, total2) = cache.cache_stats(120);
    assert_eq!((valid2, total2), (0, 0));
    assert!(cache.get_cached(&"b".to_string(), 60).is_none());
}

#[test]
fn test_cache_replaces_entry_for_same_key() {
    let mut cache = ReputationCache::new(1000);
    let key = "wallet:grace".to_string();
    cache.resolve(&key, Some(judgment(100)), 0);
    cache.resolve(&key, Some(judgment(300)), 10);

    let (_, total) = cache.cache_stats(10);
    assert_eq!(total, 1);
    assert_eq!(cache.get_cached(&key, 20).unwrap().confidence, 300);
}

#[test]
fn test_partition_cached() {
    let mut cache = ReputationCache::new(1000);
    cache.resolve(&"a".to_string(), Some(judgment(100)), 0);
    cache.resolve(&"b".to_string(), Some(judgment(200)), 0);

    // Hits keep their cached scores and order; misses keep their order.
    let subjects = vec![
        "a".to_string(),
        "x".to_string(),
        "b".to_string(),
        "y".to_string(),
    ];
    let (hits, misses) = cache.partition_cached(&subjects, 500);
    assert_eq!(hits.len(), 2);
    assert_eq!(hits[0].0, "a");
    assert_eq!(hits[0].1.confidence, 100);
    assert_eq!(hits[1].0, "b");
    assert_eq!(hits[1].1.confidence, 200);
    assert_eq!(misses, vec!["x".to_string(), "y".to_string()]);

    // After the TTL has elapsed everything misses.
    let (hits2, misses2) = cache.partition_cached(&subjects, 2000);
    assert!(hits2.is_empty());
    assert_eq!(misses2.len(), 4);
}

#[test]
fn test_kind_scoped_cache_keys() {
    // The same subject string keys the two kinds differently, so a
    // wallet judgment never shadows a token judgment.
    assert_eq!(wallet_cache_key("abc"), "abc");
    assert_eq!(token_cache_key("abc"), "token:abc");
    assert_ne!(wallet_cache_key("abc"), token_cache_key("abc"));

    let mut cache = ReputationCache::new(1000);
    cache.resolve(&wallet_cache_key("abc"), Some(judgment(100)), 0);
    cache.resolve(&token_cache_key("abc"), Some(judgment(200)), 0);
    let (_, total) = cache.cache_stats(0);
    assert_eq!(total, 2);
    assert_eq!(cache.get_cached(&wallet_cache_key("abc"), 1).unwrap().confidence, 100);
    assert_eq!(cache.get_cached(&token_cache_key("abc"), 1).unwrap().confidence, 200);
}
