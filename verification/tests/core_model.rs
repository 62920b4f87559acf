//! Tests for the φ constants, verdicts, scores and the priority model.

use cynic_scheduler::priority::TransactionPriority;
use cynic_scheduler::{
    ReputationScore, Verdict, MAX_CONFIDENCE_TENTHS, MILLI_SCALE, PHI_INV_MILLI, PHI_MILLI,
};

#[test]
fn test_phi_constants() {
    // φ · φ⁻¹ = 1, within the fixed-point resolution of one thousandth.
    let product = (PHI_MILLI * PHI_INV_MILLI) as i64;
    let one = (MILLI_SCALE * MILLI_SCALE) as i64;
    assert!((product - one).abs() < MILLI_SCALE as i64);
    // φ = 1 + φ⁻¹, exactly in this encoding.
    assert_eq!(PHI_MILLI - MILLI_SCALE, PHI_INV_MILLI);
}

#[test]
fn test_verdict_multipliers() {
    assert_eq!(Verdict::Wag.multiplier(), PHI_MILLI);
    assert_eq!(Verdict::Howl.multiplier(), MILLI_SCALE);
    assert_eq!(Verdict::Bark.multiplier(), PHI_INV_MILLI);
    assert_eq!(Verdict::Growl.multiplier(), 0);
}

#[test]
fn test_verdict_multiplier_order() {
    assert!(Verdict::Wag.multiplier() > Verdict::Howl.multiplier());
    assert!(Verdict::Howl.multiplier() > Verdict::Bark.multiplier());
    assert!(Verdict::Bark.multiplier() > Verdict::Growl.multiplier());
    assert_eq!(Verdict::Growl.multiplier(), 0);
}

#[test]
fn test_verdict_drop() {
    assert!(!Verdict::Wag.should_drop());
    assert!(!Verdict::Howl.should_drop());
    assert!(!Verdict::Bark.should_drop());
    assert!(Verdict::Growl.should_drop());
}

#[test]
fn test_default_reputation() {
    let score = ReputationScore::default();
    assert_eq!(score.q_score, 500);
    assert_eq!(score.verdict, Verdict::Howl);
    assert_eq!(score.confidence, MAX_CONFIDENCE_TENTHS);
    assert_eq!(score.confidence, 618);
    assert!(score.k_score.is_none());
    assert!(score.e_score.is_none());
}

#[test]
fn test_priority_ordering() {
    let p1 = TransactionPriority::neutral(100, 0);
    let p2 = TransactionPriority::boosted(100, 1);
    let p3 = TransactionPriority::reduced(100, 2);

    assert!(p2 > p1);
    assert!(p1 > p3);
    assert!(p2 > p3);
}

#[test]
fn test_priority_scores() {
    // Exact fixed-point products of a fee of 100.
    assert_eq!(TransactionPriority::boosted(100, 0).phi_score, 161_800);
    assert_eq!(TransactionPriority::neutral(100, 0).phi_score, 100_000);
    assert_eq!(TransactionPriority::reduced(100, 0).phi_score, 61_800);
    assert_eq!(TransactionPriority::zero(0).phi_score, 0);
    let growl = ReputationScore {
        verdict: Verdict::Growl,
        ..Default::default()
    };
    assert_eq!(TransactionPriority::new(100, &growl, 0).phi_score, 0);
}

#[test]
fn test_priority_fifo_tie_break() {
    // Equal scores: the earlier tick ranks greater.
    let early = TransactionPriority::neutral(100, 1);
    let late = TransactionPriority::neutral(100, 2);
    assert!(early > late);
    assert!(late < early);
    assert_eq!(early, TransactionPriority::neutral(100, 1));
}
