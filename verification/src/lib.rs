//! φ-weighted transaction scheduling.
//!
//! An admission-control and prioritization layer that sits between an
//! incoming stream of transactions and a set of execution workers.  Every
//! transaction is judged by an external reputation service; the verdict
//! scales the transaction's fee into a weighted priority, and a bounded
//! max-priority queue orders admitted transactions for block building.
//!
//! All ratios derived from the golden ratio φ are carried as fixed-point
//! integers: multipliers in thousandths (φ ≈ 1618/1000) and score-like
//! quantities in tenths (the confidence cap φ⁻¹ · 100 ≈ 61.8 is 618 tenths).

use vstd::prelude::*;

pub mod assoc;
pub mod config;
pub mod cynic_client;
pub mod error;
pub mod priority;
pub mod scheduler;

verus! {

/// φ (golden ratio) in thousandths.
pub const PHI_MILLI: u64 = 1618;

/// φ⁻¹ (inverse golden ratio) in thousandths.
pub const PHI_INV_MILLI: u64 = 618;

/// One whole unit of a multiplier, in thousandths.
pub const MILLI_SCALE: u64 = 1000;

/// Hard cap on any reputation confidence, in tenths of a percent:
/// φ⁻¹ · 100 ≈ 61.8%, so 618 tenths.
pub const MAX_CONFIDENCE_TENTHS: u64 = 618;

/// Quality score of the default (unknown) reputation, in tenths: 50.0.
pub const DEFAULT_Q_SCORE_TENTHS: u64 = 500;

/// Verdict returned by the reputation service for a judged subject.
#[derive(Debug, Clone, Copy, PartialEq, Eq, Structural)]
pub enum Verdict {
    /// Excellent - boost priority by φ.
    Wag,
    /// Good - standard priority.
    Howl,
    /// Suspicious - reduce priority by φ⁻¹.
    Bark,
    /// Dangerous - drop the transaction.
    Growl,
}

impl Verdict {
    /// The fee multiplier of this verdict, in thousandths.
    pub open spec fn spec_multiplier(self) -> u64 {
        match self {
            Verdict::Wag => PHI_MILLI,
            Verdict::Howl => MILLI_SCALE,
            Verdict::Bark => PHI_INV_MILLI,
            Verdict::Growl => 0,
        }
    }

    /// Get the priority multiplier for this verdict, in thousandths.
    pub fn multiplier(&self) -> (r: u64)
        ensures
            r == self.spec_multiplier(),
    {
        match self {
            Verdict::Wag => PHI_MILLI,
            Verdict::Howl => MILLI_SCALE,
            Verdict::Bark => PHI_INV_MILLI,
            Verdict::Growl => 0,
        }
    }

    /// Check whether a transaction with this verdict should be dropped.
    pub fn should_drop(&self) -> (r: bool)
        ensures
            r == (self is Growl),
    {
        matches!(self, Verdict::Growl)
    }
}

/// The verdict multipliers are strictly ordered, the dangerous verdict
/// carries a zero multiplier, and the boost and reduction multipliers are
/// inverse to each other up to the fixed-point resolution:
/// φ · φ⁻¹ = 1, so 1618 · 618 is within one thousandth of 1000².
/// The exact identity φ = 1 + φ⁻¹ also survives the encoding.
pub proof fn lemma_multiplier_order()
    ensures
        Verdict::Wag.spec_multiplier() > Verdict::Howl.spec_multiplier(),
        Verdict::Howl.spec_multiplier() > Verdict::Bark.spec_multiplier(),
        Verdict::Bark.spec_multiplier() > Verdict::Growl.spec_multiplier(),
        Verdict::Growl.spec_multiplier() == 0,
        MILLI_SCALE * MILLI_SCALE - MILLI_SCALE
            < Verdict::Wag.spec_multiplier() * Verdict::Bark.spec_multiplier(),
        Verdict::Wag.spec_multiplier() * Verdict::Bark.spec_multiplier()
            < MILLI_SCALE * MILLI_SCALE + MILLI_SCALE,
        Verdict::Wag.spec_multiplier() == MILLI_SCALE + Verdict::Bark.spec_multiplier(),
{
}

/// Reputation score attached to a judged subject.
///
/// All score-like fields are fixed-point integers in tenths of a unit:
/// `q_score` 500 means a quality score of 50.0, `confidence` 618 means
/// 61.8%.
#[derive(Debug, Clone, Copy)]
pub struct ReputationScore {
    /// Quality score in tenths (0 ..= 1000 stands for 0.0 ..= 100.0).
    pub q_score: u64,
    /// Verdict.
    pub verdict: Verdict,
    /// Token-specific score in tenths (optional).
    pub k_score: Option<u64>,
    /// Wallet-specific score in tenths (optional).
    pub e_score: Option<u64>,
    /// Confidence in tenths of a percent, never above 618 (61.8%).
    pub confidence: u64,
}

impl ReputationScore {
    /// The score is within the bounds the system promises of every score
    /// it hands out: the confidence never exceeds φ⁻¹ · 100.
    pub open spec fn wf(self) -> bool {
        self.confidence <= MAX_CONFIDENCE_TENTHS
    }

    /// The neutral score substituted when no judgment is available.
    pub open spec fn spec_default() -> ReputationScore {
        ReputationScore {
            q_score: DEFAULT_Q_SCORE_TENTHS,
            verdict: Verdict::Howl,
            k_score: None,
            e_score: None,
            confidence: MAX_CONFIDENCE_TENTHS,
        }
    }
}

impl Default for ReputationScore {
    /// The default score: neutral quality 50.0, neutral verdict, no
    /// subject-specific scores, confidence at the 61.8% cap.
    fn default() -> (r: Self)
        ensures
            r == ReputationScore::spec_default(),
            r.wf(),
    {
        ReputationScore {
            q_score: DEFAULT_Q_SCORE_TENTHS,
            verdict: Verdict::Howl,
            k_score: None,
            e_score: None,
            confidence: MAX_CONFIDENCE_TENTHS,
        }
    }
}

} // verus!
