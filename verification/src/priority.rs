//! Priority queue for φ-weighted transaction scheduling.
//!
//! A transaction's priority is its fee scaled by the multiplier of its
//! reputation verdict, carried as a fixed-point product in thousandths.
//! Ties are broken first-in-first-out by a logical admission tick, so the
//! order over priorities is total and strict for distinct admissions.
//!
//! The ranking structure itself is the double-ended priority queue of the
//! `priority_queue` crate, held behind trusted wrappers whose contracts
//! speak of its contents as a mathematical map; beside it a record store
//! keeps the full transaction under the same key.  The two are proven to
//! always agree on their key sets.

use vstd::prelude::*;
use vstd::std_specs::cmp::PartialOrdSpec;
use core::cmp::Ordering;
use priority_queue::DoublePriorityQueue;
use crate::assoc::{amap, keys_distinct, lemma_amap_dom, lemma_amap_get, lemma_amap_len,
    lemma_amap_push, lemma_amap_remove, lemma_push_distinct};
use crate::error::SchedulerError;
use crate::{ReputationScore, Verdict};

verus! {

// ---------------------------------------------------------------------------
// Transaction priority
// ---------------------------------------------------------------------------

/// Transaction priority score.
///
/// `phi_score` is the fee times the verdict multiplier, in thousandths of a
/// fee unit; `timestamp` is a logical admission tick used for
/// first-in-first-out ordering among equal scores.
#[derive(Debug, Clone, Copy)]
pub struct TransactionPriority {
    /// Base priority fee (fee units per compute unit).
    pub base_fee: u64,
    /// φ-weighted priority score, in thousandths of a fee unit.
    pub phi_score: u128,
    /// Logical admission tick, for FIFO within the same score.
    pub timestamp: u64,
}

/// The φ-weighted score of a fee under a verdict, in thousandths.
pub open spec fn spec_phi_score(base_fee: u64, verdict: Verdict) -> int {
    base_fee * verdict.spec_multiplier()
}

impl TransactionPriority {
    /// One priority ranks above another when its score is higher, or the
    /// scores are equal and it was admitted earlier.
    pub open spec fn spec_lt(self, other: Self) -> bool {
        self.phi_score < other.phi_score || (self.phi_score == other.phi_score
            && self.timestamp > other.timestamp)
    }

    /// Create a new priority from a fee and a reputation, at a tick.
    pub fn new(base_fee: u64, reputation: &ReputationScore, timestamp: u64) -> (r: Self)
        ensures
            r.base_fee == base_fee,
            r.phi_score == spec_phi_score(base_fee, reputation.verdict),
            r.timestamp == timestamp,
    {
        let multiplier = reputation.verdict.multiplier();
        proof {
            assert(base_fee as u128 * multiplier as u128 <= u64::MAX * 1618) by (nonlinear_arith)
                requires
                    base_fee <= u64::MAX,
                    multiplier <= 1618,
            ;
        }
        let phi_score = (base_fee as u128) * (multiplier as u128);
        TransactionPriority { base_fee, phi_score, timestamp }
    }

    /// Create a priority for unknown reputation (neutral).
    pub fn neutral(base_fee: u64, timestamp: u64) -> (r: Self)
        ensures
            r.base_fee == base_fee,
            r.phi_score == spec_phi_score(base_fee, Verdict::Howl),
            r.timestamp == timestamp,
    {
        Self::new(base_fee, &ReputationScore { verdict: Verdict::Howl, ..Default::default() },
            timestamp)
    }

    /// Create a boosted priority (excellent verdict).
    pub fn boosted(base_fee: u64, timestamp: u64) -> (r: Self)
        ensures
            r.base_fee == base_fee,
            r.phi_score == spec_phi_score(base_fee, Verdict::Wag),
            r.timestamp == timestamp,
    {
        Self::new(base_fee, &ReputationScore { verdict: Verdict::Wag, ..Default::default() },
            timestamp)
    }

    /// Create a reduced priority (suspicious verdict).
    pub fn reduced(base_fee: u64, timestamp: u64) -> (r: Self)
        ensures
            r.base_fee == base_fee,
            r.phi_score == spec_phi_score(base_fee, Verdict::Bark),
            r.timestamp == timestamp,
    {
        Self::new(base_fee, &ReputationScore { verdict: Verdict::Bark, ..Default::default() },
            timestamp)
    }

    /// Create a zero priority (dangerous verdict, meant to be dropped).
    pub fn zero(timestamp: u64) -> (r: Self)
        ensures
            r.base_fee == 0,
            r.phi_score == 0,
            r.timestamp == timestamp,
    {
        TransactionPriority { base_fee: 0, phi_score: 0, timestamp }
    }

    /// The key under which this priority ranks in the heap: lexicographic
    /// order on the key is exactly the priority order, because the tick is
    /// stored inverted.
    pub open spec fn spec_key(self) -> (u128, u64) {
        (self.phi_score, (u64::MAX - self.timestamp) as u64)
    }

    /// Compute the heap key of this priority.
    pub fn key(&self) -> (r: (u128, u64))
        ensures
            r == self.spec_key(),
    {
        (self.phi_score, u64::MAX - self.timestamp)
    }
}

/// Lexicographic order on heap keys: this is the order `Ord` gives to
/// integer pairs, mirrored here so that contracts can speak of it.
pub open spec fn key_le(a: (u128, u64), b: (u128, u64)) -> bool {
    a.0 < b.0 || (a.0 == b.0 && a.1 <= b.1)
}

/// Strict lexicographic order on heap keys.
pub open spec fn key_lt(a: (u128, u64), b: (u128, u64)) -> bool {
    a.0 < b.0 || (a.0 == b.0 && a.1 < b.1)
}

/// The heap key order agrees with the priority order.
pub proof fn lemma_key_order(a: TransactionPriority, b: TransactionPriority)
    ensures
        key_lt(a.spec_key(), b.spec_key()) <==> a.spec_lt(b),
{
}

impl PartialEq for TransactionPriority {
    /// Two priorities are equal when score and tick agree; the base fee is
    /// not part of the ordering identity.
    fn eq(&self, other: &Self) -> (r: bool)
        ensures
            r == (self.phi_score == other.phi_score && self.timestamp == other.timestamp),
    {
        self.phi_score == other.phi_score && self.timestamp == other.timestamp
    }
}

impl vstd::std_specs::cmp::PartialEqSpecImpl for TransactionPriority {
    open spec fn obeys_eq_spec() -> bool {
        true
    }

    open spec fn eq_spec(&self, other: &Self) -> bool {
        self.phi_score == other.phi_score && self.timestamp == other.timestamp
    }
}

impl PartialOrd for TransactionPriority {
    /// Higher score ranks greater; among equal scores the earlier tick
    /// ranks greater (FIFO).
    fn partial_cmp(&self, other: &Self) -> (r: Option<Ordering>) {
        if self.phi_score < other.phi_score {
            Some(Ordering::Less)
        } else if self.phi_score > other.phi_score {
            Some(Ordering::Greater)
        } else if self.timestamp > other.timestamp {
            Some(Ordering::Less)
        } else if self.timestamp < other.timestamp {
            Some(Ordering::Greater)
        } else {
            Some(Ordering::Equal)
        }
    }
}

impl vstd::std_specs::cmp::PartialOrdSpecImpl for TransactionPriority {
    open spec fn obeys_partial_cmp_spec() -> bool {
        true
    }

    open spec fn partial_cmp_spec(&self, other: &Self) -> Option<Ordering> {
        if self.spec_lt(*other) {
            Some(Ordering::Less)
        } else if other.spec_lt(*self) {
            Some(Ordering::Greater)
        } else {
            Some(Ordering::Equal)
        }
    }
}

// ---------------------------------------------------------------------------
// Queued transactions and statistics
// ---------------------------------------------------------------------------

/// Transaction entry in the queue.
#[derive(Debug, Clone)]
pub struct QueuedTransaction {
    /// Transaction signature (dedup key).
    pub signature: String,
    /// Fee payer address.
    pub fee_payer: String,
    /// Priority fee in fee units per compute unit.
    pub priority_fee: u64,
    /// Compute units requested.
    pub compute_units: u64,
    /// Reputation score (if fetched).
    pub reputation: Option<ReputationScore>,
    /// Raw transaction bytes offset (into an externally owned buffer).
    pub tx_offset: usize,
    /// Raw transaction bytes length.
    pub tx_length: u32,
}

/// Queue statistics: cumulative counters plus a current-size gauge.  The
/// counters saturate instead of wrapping; they are advisory and never
/// gate admission.
#[derive(Debug, Clone, Copy)]
pub struct QueueStats {
    /// Total transactions enqueued.
    pub total_enqueued: u64,
    /// Total transactions dequeued.
    pub total_dequeued: u64,
    /// Total transactions dropped (dangerous verdict).
    pub total_dropped: u64,
    /// Total transactions boosted (excellent verdict).
    pub total_boosted: u64,
    /// Total transactions reduced (suspicious verdict).
    pub total_reduced: u64,
    /// Current queue size.
    pub current_size: usize,
}

impl Default for QueueStats {
    /// All counters and the gauge start at zero.
    fn default() -> (r: Self)
        ensures
            r == QueueStats::spec_zero(),
    {
        QueueStats {
            total_enqueued: 0,
            total_dequeued: 0,
            total_dropped: 0,
            total_boosted: 0,
            total_reduced: 0,
            current_size: 0,
        }
    }
}

impl QueueStats {
    /// The all-zero statistics record.
    pub open spec fn spec_zero() -> QueueStats {
        QueueStats {
            total_enqueued: 0,
            total_dequeued: 0,
            total_dropped: 0,
            total_boosted: 0,
            total_reduced: 0,
            current_size: 0,
        }
    }
}

// ---------------------------------------------------------------------------
// Trusted boundary: the outside double-ended priority queue
// ---------------------------------------------------------------------------

/// Declares the ranking structure of the `priority_queue` crate so that it
/// can stand in fields and signatures; its values are opaque to the
/// verifier and reachable only through the wrappers below.
#[verifier::external_type_specification]
#[verifier::external_body]
#[verifier::reject_recursive_types(I)]
#[verifier::reject_recursive_types(P)]
#[verifier::reject_recursive_types(H)]
pub struct ExDoublePriorityQueue<I, P, H>(DoublePriorityQueue<I, P, H>);

/// The contents of the ranking structure, as a map from the signature to
/// its heap key.
pub uninterp spec fn dpq_contents(q: DoublePriorityQueue<String, (u128, u64)>) -> Map<
    Seq<char>,
    (u128, u64),
>;

/// An empty contents map.
pub open spec fn dpq_empty() -> Map<Seq<char>, (u128, u64)> {
    Map::empty()
}

/// Relies on `DoublePriorityQueue::new`: creates an empty queue.
#[verifier::external_body]
fn dpq_new() -> (q: DoublePriorityQueue<String, (u128, u64)>)
    ensures
        dpq_contents(q) == dpq_empty(),
{
    DoublePriorityQueue::new()
}

/// Relies on `DoublePriorityQueue::len`: the number of stored pairs.
#[verifier::external_body]
fn dpq_len(q: &DoublePriorityQueue<String, (u128, u64)>) -> (r: usize)
    ensures
        r == dpq_contents(*q).len(),
{
    q.len()
}

/// Relies on `DoublePriorityQueue::push`: inserts the pair, or updates the
/// priority of an already-stored item, returning the old priority.
#[verifier::external_body]
fn dpq_push(q: &mut DoublePriorityQueue<String, (u128, u64)>, item: String, prio: (u128, u64)) -> (r:
    Option<(u128, u64)>)
    ensures
        dpq_contents(*final(q)) == dpq_contents(*old(q)).insert(item@, prio),
        r == (if dpq_contents(*old(q)).dom().contains(item@) {
            Some(dpq_contents(*old(q))[item@])
        } else {
            None::<(u128, u64)>
        }),
{
    q.push(item, prio)
}

/// Relies on `DoublePriorityQueue::peek_min` and on std's documented
/// lexicographic `Ord` for integer pairs: returns a pair whose priority is
/// least among the stored ones, or nothing when empty.
#[verifier::external_body]
fn dpq_peek_min(q: &DoublePriorityQueue<String, (u128, u64)>) -> (r: Option<(String, (u128, u64))>)
    ensures
        match r {
            Some(ip) => dpq_contents(*q).dom().contains(ip.0@) && dpq_contents(*q)[ip.0@] == ip.1
                && forall|k: Seq<char>|
                dpq_contents(*q).dom().contains(k) ==> key_le(ip.1, dpq_contents(*q)[k]),
            None => dpq_contents(*q) == dpq_empty(),
        },
{
    q.peek_min().map(|ip| (ip.0.clone(), *ip.1))
}

/// Relies on `DoublePriorityQueue::pop_min` and on std's documented
/// lexicographic `Ord` for integer pairs: removes and returns a pair whose
/// priority is least among the stored ones, or nothing when empty.
#[verifier::external_body]
fn dpq_pop_min(q: &mut DoublePriorityQueue<String, (u128, u64)>) -> (r: Option<
    (String, (u128, u64)),
>)
    ensures
        match r {
            Some(ip) => dpq_contents(*old(q)).dom().contains(ip.0@) && dpq_contents(*old(q))[ip.0@]
                == ip.1 && (forall|k: Seq<char>|
                dpq_contents(*old(q)).dom().contains(k) ==> key_le(ip.1, dpq_contents(*old(q))[k]))
                && dpq_contents(*final(q)) == dpq_contents(*old(q)).remove(ip.0@),
            None => dpq_contents(*old(q)) == dpq_empty() && dpq_contents(*final(q))
                == dpq_contents(*old(q)),
        },
{
    q.pop_min()
}

/// Relies on `DoublePriorityQueue::pop_max` and on std's documented
/// lexicographic `Ord` for integer pairs: removes and returns a pair whose
/// priority is greatest among the stored ones, or nothing when empty.
#[verifier::external_body]
fn dpq_pop_max(q: &mut DoublePriorityQueue<String, (u128, u64)>) -> (r: Option<
    (String, (u128, u64)),
>)
    ensures
        match r {
            Some(ip) => dpq_contents(*old(q)).dom().contains(ip.0@) && dpq_contents(*old(q))[ip.0@]
                == ip.1 && (forall|k: Seq<char>|
                dpq_contents(*old(q)).dom().contains(k) ==> key_le(dpq_contents(*old(q))[k], ip.1))
                && dpq_contents(*final(q)) == dpq_contents(*old(q)).remove(ip.0@),
            None => dpq_contents(*old(q)) == dpq_empty() && dpq_contents(*final(q))
                == dpq_contents(*old(q)),
        },
{
    q.pop_max()
}

/// Relies on `DoublePriorityQueue::clear`: drops all stored pairs.
#[verifier::external_body]
fn dpq_clear(q: &mut DoublePriorityQueue<String, (u128, u64)>)
    ensures
        dpq_contents(*final(q)) == dpq_empty(),
{
    q.clear()
}

// ---------------------------------------------------------------------------
// The bounded priority queue
// ---------------------------------------------------------------------------

/// Saturating addition on counters: the statistics never wrap.
pub open spec fn sat_add64(a: u64, b: u64) -> u64 {
    if a + b > u64::MAX {
        u64::MAX
    } else {
        (a + b) as u64
    }
}

/// `k` is a key of least priority in the contents map.
pub open spec fn is_min_key(m: Map<Seq<char>, (u128, u64)>, k: Seq<char>) -> bool {
    m.dom().contains(k) && forall|j: Seq<char>| #[trigger] m.dom().contains(j) ==> key_le(m[k], m[j])
}

/// `k` is a key of greatest priority in the contents map.
pub open spec fn is_max_key(m: Map<Seq<char>, (u128, u64)>, k: Seq<char>) -> bool {
    m.dom().contains(k) && forall|j: Seq<char>| #[trigger] m.dom().contains(j) ==> key_le(m[j], m[k])
}

/// The heap key `key` strictly exceeds the least priority resident in `m`.
pub open spec fn beats_min(m: Map<Seq<char>, (u128, u64)>, key: (u128, u64)) -> bool {
    exists|k: Seq<char>| is_min_key(m, k) && key_lt(m[k], key)
}

/// How the counters move when a transaction is admitted: the enqueued
/// counter advances and the boost or reduction counter advances with the
/// verdict; the size gauge is constrained separately.
pub open spec fn stats_insert_step(pre: QueueStats, post: QueueStats, v: Verdict) -> bool {
    &&& post.total_enqueued == sat_add64(pre.total_enqueued, 1)
    &&& post.total_dequeued == pre.total_dequeued
    &&& post.total_dropped == pre.total_dropped
    &&& post.total_boosted == (if v is Wag {
        sat_add64(pre.total_boosted, 1)
    } else {
        pre.total_boosted
    })
    &&& post.total_reduced == (if v is Bark {
        sat_add64(pre.total_reduced, 1)
    } else {
        pre.total_reduced
    })
}

/// The signatures of a batch of extracted transactions.
pub open spec fn batch_keys(s: Seq<QueuedTransaction>) -> Set<Seq<char>> {
    Set::new(|k: Seq<char>| exists|i: int| 0 <= i < s.len() && s[i].signature@ == k)
}

/// Appending a record stored under its own signature keeps every record
/// stored under its own signature.
proof fn lemma_sig_push(
    s0: Seq<(String, QueuedTransaction)>,
    s1: Seq<(String, QueuedTransaction)>,
    key: String,
    v: QueuedTransaction,
)
    requires
        s1 == s0.push((key, v)),
        key@ == v.signature@,
        forall|i: int| 0 <= i < s0.len() ==> #[trigger] s0[i].1.signature@ == s0[i].0@,
    ensures
        forall|i: int| 0 <= i < s1.len() ==> #[trigger] s1[i].1.signature@ == s1[i].0@,
{
    assert forall|i: int| 0 <= i < s1.len() implies #[trigger] s1[i].1.signature@ == s1[i].0@ by {
        if i < s0.len() {
            assert(s1[i] == s0[i]);
        } else {
            assert(s1[i] == (key, v));
        }
    }
}

/// Thread-unaware bounded max-priority queue for transactions; callers
/// that share one across threads serialize every operation under a single
/// lock, which this sequential core makes correct by construction.
pub struct PriorityQueue {
    heap: DoublePriorityQueue<String, (u128, u64)>,
    records: Vec<(String, QueuedTransaction)>,
    stats: QueueStats,
    max_size: usize,
    drop_filter: bool,
    next_seq: u64,
}

impl PriorityQueue {
    /// The ranking contents: signature to heap key.
    pub closed spec fn prios(self) -> Map<Seq<char>, (u128, u64)> {
        dpq_contents(self.heap)
    }

    /// The record store: signature to queued transaction.
    pub closed spec fn txs(self) -> Map<Seq<char>, QueuedTransaction> {
        amap(self.records@)
    }

    /// The current statistics.
    pub closed spec fn stats_spec(self) -> QueueStats {
        self.stats
    }

    /// The configured capacity.
    pub closed spec fn max_size_spec(self) -> usize {
        self.max_size
    }

    /// Whether dangerous-verdict transactions are dropped on insertion.
    pub closed spec fn drop_filter_spec(self) -> bool {
        self.drop_filter
    }

    /// The logical tick the next admission will carry.
    pub closed spec fn tick_spec(self) -> u64 {
        self.next_seq
    }

    /// The heap key the next admission of this fee and verdict would get.
    pub open spec fn next_key(self, fee: u64, v: Verdict) -> (u128, u64) {
        (spec_phi_score(fee, v) as u128, (u64::MAX - self.tick_spec()) as u64)
    }

    /// The configuration of the queue does not move.
    pub open spec fn same_config(pre: Self, post: Self) -> bool {
        &&& post.max_size_spec() == pre.max_size_spec()
        &&& post.drop_filter_spec() == pre.drop_filter_spec()
    }

    /// Structural invariant tying the ranking structure to the record
    /// store: distinct keys, each record stored under its own signature,
    /// and the two key sets equal (the documented queue invariant).
    pub closed spec fn inv_core(self) -> bool {
        &&& keys_distinct(self.records@)
        &&& forall|i: int|
            0 <= i < self.records@.len() ==> #[trigger] self.records@[i].1.signature@
                == self.records@[i].0@
        &&& self.prios().dom() == self.txs().dom()
        &&& self.prios().dom().finite()
    }

    /// Well-formed: the structural invariant holds and the size gauge is
    /// the true resident count.
    pub closed spec fn wf(self) -> bool {
        &&& self.inv_core()
        &&& self.stats.current_size == self.records@.len()
    }

    /// The resident count agrees between the ranking structure, the record
    /// store and the size gauge.
    proof fn lemma_sizes(self)
        requires
            self.wf(),
        ensures
            self.prios().len() == self.records@.len(),
            self.txs().len() == self.records@.len(),
            self.stats_spec().current_size == self.prios().len(),
    {
        lemma_amap_len(self.records@);
    }

    /// Create a new priority queue with drop-filtering enabled.
    pub fn new(max_size: usize) -> (r: Self)
        ensures
            r.wf(),
            r.prios() == dpq_empty(),
            r.txs().len() == 0,
            r.stats_spec() == QueueStats::spec_zero(),
            r.max_size_spec() == max_size,
            r.drop_filter_spec(),
            r.tick_spec() == 0,
    {
        Self::with_drop_filter(max_size, true)
    }

    /// Create a new priority queue, choosing whether dangerous-verdict
    /// transactions are dropped on insertion.
    pub fn with_drop_filter(max_size: usize, enabled: bool) -> (r: Self)
        ensures
            r.wf(),
            r.prios() == dpq_empty(),
            r.txs().len() == 0,
            r.stats_spec() == QueueStats::spec_zero(),
            r.max_size_spec() == max_size,
            r.drop_filter_spec() == enabled,
            r.tick_spec() == 0,
    {
        let r = PriorityQueue {
            heap: dpq_new(),
            records: Vec::new(),
            stats: QueueStats::default(),
            max_size,
            drop_filter: enabled,
            next_seq: 0,
        };
        proof {
            lemma_amap_dom(r.records@);
            assert(r.prios().dom() =~= r.txs().dom());
        }
        r
    }

    /// Find the index of the record stored under a signature.
    fn find_record(&self, sig: &String) -> (r: Option<usize>)
        ensures
            match r {
                Some(i) => 0 <= i < self.records@.len() && self.records@[i as int].0@ == sig@,
                None => forall|i: int|
                    0 <= i < self.records@.len() ==> #[trigger] self.records@[i].0@ != sig@,
            },
    {
        let n = self.records.len();
        let mut i: usize = 0;
        while i < n
            invariant
                n == self.records@.len(),
                i <= n,
                forall|j: int| 0 <= j < i ==> #[trigger] self.records@[j].0@ != sig@,
            decreases n - i,
        {
            if self.records[i].0 == *sig {
                return Some(i);
            }
            i = i + 1;
        }
        None
    }

    /// Insert a transaction known not to be resident, under a heap key
    /// carrying the current tick; advances the tick and the counters.
    fn insert_fresh(&mut self, tx: QueuedTransaction, key: (u128, u64), verdict: Verdict)
        requires
            old(self).inv_core(),
            !old(self).prios().dom().contains(tx.signature@),
            key == old(self).next_key(tx.priority_fee, verdict),
        ensures
            final(self).wf(),
            final(self).prios() == old(self).prios().insert(tx.signature@, key),
            final(self).txs() == old(self).txs().insert(tx.signature@, tx),
            stats_insert_step(old(self).stats_spec(), final(self).stats_spec(), verdict),
            final(self).stats_spec().current_size == final(self).records_len(),
            final(self).records_len() == old(self).records_len() + 1,
            final(self).tick_spec() == sat_add64(old(self).tick_spec(), 1),
            PriorityQueue::same_config(*old(self), *final(self)),
    {
        let sig_heap = tx.signature.clone();
        let sig_rec = tx.signature.clone();
        proof {
            lemma_amap_push(self.records@, sig_rec, tx);
            lemma_push_distinct(self.records@, sig_rec, tx);
        }
        let ghost rec_pre = self.records@;
        self.records.push((sig_rec, tx));
        proof {
            lemma_sig_push(rec_pre, self.records@, sig_rec, tx);
        }
        let _ = dpq_push(&mut self.heap, sig_heap, key);
        self.stats.total_enqueued = self.stats.total_enqueued.saturating_add(1);
        match verdict {
            Verdict::Wag => {
                self.stats.total_boosted = self.stats.total_boosted.saturating_add(1);
            },
            Verdict::Bark => {
                self.stats.total_reduced = self.stats.total_reduced.saturating_add(1);
            },
            _ => {},
        }
        self.stats.current_size = self.records.len();
        self.next_seq = self.next_seq.saturating_add(1);
        proof {
            assert(self.prios().dom() =~= self.txs().dom());
        }
    }

    /// How one admission moves the queue, for every case: a dangerous
    /// verdict is dropped under the filter; a resident signature is
    /// replaced in place in both structures; below capacity the
    /// transaction is inserted; at capacity it is rejected unless its key
    /// strictly exceeds the least resident, which is then evicted.
    pub open spec fn enqueue_transition(
        pre: PriorityQueue,
        tx: QueuedTransaction,
        rep: ReputationScore,
        post: PriorityQueue,
        r: Result<bool, SchedulerError>,
    ) -> bool {
        let sig = tx.signature@;
        let key = pre.next_key(tx.priority_fee, rep.verdict);
        let dropped = rep.verdict is Growl && pre.drop_filter_spec();
        let resident = pre.prios().dom().contains(sig);
        let full = pre.prios().len() >= pre.max_size_spec() && pre.prios().len() > 0;
        &&& PriorityQueue::same_config(pre, post)
        &&& if dropped {
            &&& r == Ok::<bool, SchedulerError>(false)
            &&& post.prios() == pre.prios()
            &&& post.txs() == pre.txs()
            &&& post.tick_spec() == pre.tick_spec()
            &&& post.stats_spec() == (QueueStats {
                total_dropped: sat_add64(pre.stats_spec().total_dropped, 1),
                ..pre.stats_spec()
            })
        } else if resident {
            &&& r == Ok::<bool, SchedulerError>(true)
            &&& post.prios() == pre.prios().insert(sig, key)
            &&& post.txs() == pre.txs().insert(sig, tx)
            &&& post.tick_spec() == sat_add64(pre.tick_spec(), 1)
            &&& stats_insert_step(pre.stats_spec(), post.stats_spec(), rep.verdict)
            &&& post.stats_spec().current_size == pre.stats_spec().current_size
        } else if !full {
            &&& r == Ok::<bool, SchedulerError>(true)
            &&& post.prios() == pre.prios().insert(sig, key)
            &&& post.txs() == pre.txs().insert(sig, tx)
            &&& post.tick_spec() == sat_add64(pre.tick_spec(), 1)
            &&& stats_insert_step(pre.stats_spec(), post.stats_spec(), rep.verdict)
            &&& post.stats_spec().current_size == pre.stats_spec().current_size + 1
        } else if !beats_min(pre.prios(), key) {
            &&& r is Err
            &&& r->Err_0 is Queue
            &&& post.prios() == pre.prios()
            &&& post.txs() == pre.txs()
            &&& post.tick_spec() == pre.tick_spec()
            &&& post.stats_spec() == pre.stats_spec()
        } else {
            &&& r == Ok::<bool, SchedulerError>(true)
            &&& exists|m: Seq<char>|
                {
                    &&& is_min_key(pre.prios(), m)
                    &&& key_lt(pre.prios()[m], key)
                    &&& post.prios() == pre.prios().remove(m).insert(sig, key)
                    &&& post.txs() == pre.txs().remove(m).insert(sig, tx)
                }
            &&& post.tick_spec() == sat_add64(pre.tick_spec(), 1)
            &&& stats_insert_step(pre.stats_spec(), post.stats_spec(), rep.verdict)
            &&& post.stats_spec().current_size == pre.stats_spec().current_size
        }
    }

    /// Enqueue a transaction with reputation-based priority.
    ///
    /// Returns `Ok(true)` when the transaction was admitted, `Ok(false)`
    /// when it was dropped by the verdict filter, and a queue error when
    /// the queue is full and the transaction does not outrank the least
    /// resident.
    pub fn enqueue(&mut self, tx: QueuedTransaction, reputation: &ReputationScore) -> (r: Result<
        bool,
        SchedulerError,
    >)
        requires
            old(self).wf(),
        ensures
            final(self).wf(),
            PriorityQueue::enqueue_transition(*old(self), tx, *reputation, *final(self), r),
    {
        if reputation.verdict.should_drop() && self.drop_filter {
            self.stats.total_dropped = self.stats.total_dropped.saturating_add(1);
            return Ok(false);
        }
        let priority = TransactionPriority::new(tx.priority_fee, reputation, self.next_seq);
        let key = priority.key();
        proof {
            self.lemma_sizes();
        }
        let found = self.find_record(&tx.signature);
        match found {
            Some(i) => {
                // Replace in place, atomically in both structures.
                let ghost rec0 = self.records@;
                proof {
                    lemma_amap_get(rec0, i as int);
                    lemma_amap_remove(rec0, i as int);
                }
                let _ = self.records.remove(i);
                proof {
                    assert forall|a: int| 0 <= a < self.records@.len() implies #[trigger] self
                        .records@[a].1.signature@ == self.records@[a].0@ by {
                        let a0 = if a < i { a as int } else { a + 1 };
                        assert(self.records@[a] == rec0[a0]);
                    }
                }
                let sig_heap = tx.signature.clone();
                let sig_rec = tx.signature.clone();
                proof {
                    lemma_amap_push(self.records@, sig_rec, tx);
                    lemma_push_distinct(self.records@, sig_rec, tx);
                }
                let ghost rec_mid = self.records@;
                self.records.push((sig_rec, tx));
                proof {
                    lemma_sig_push(rec_mid, self.records@, sig_rec, tx);
                }
                let _ = dpq_push(&mut self.heap, sig_heap, key);
                self.stats.total_enqueued = self.stats.total_enqueued.saturating_add(1);
                match reputation.verdict {
                    Verdict::Wag => {
                        self.stats.total_boosted = self.stats.total_boosted.saturating_add(1);
                    },
                    Verdict::Bark => {
                        self.stats.total_reduced = self.stats.total_reduced.saturating_add(1);
                    },
                    _ => {},
                }
                self.stats.current_size = self.records.len();
                self.next_seq = self.next_seq.saturating_add(1);
                proof {
                    assert(self.txs() =~= old(self).txs().insert(tx.signature@, tx));
                    assert(self.prios().dom() =~= self.txs().dom());
                }
                Ok(true)
            },
            None => {
                proof {
                    lemma_amap_dom(self.records@);
                    assert(!self.txs().dom().contains(tx.signature@));
                }
                if self.records.len() >= self.max_size {
                    let peeked = dpq_peek_min(&self.heap);
                    match peeked {
                        Some(mp) => {
                            let beats = mp.1.0 < key.0 || (mp.1.0 == key.0 && mp.1.1 < key.1);
                            if !beats {
                                proof {
                                    let m0 = self.prios();
                                    assert forall|k: Seq<char>| is_min_key(m0, k) implies !key_lt(
                                        m0[k],
                                        key,
                                    ) by {
                                        assert(m0.dom().contains(mp.0@));
                                        assert(key_le(m0[k], m0[mp.0@]));
                                        assert(key_le(mp.1, m0[k]));
                                    }
                                }
                                return Err(
                                    SchedulerError::queue(
                                        "Queue full, transaction priority too low".to_string(),
                                    ),
                                );
                            }
                            // Evict the least-priority resident.
                            let popped = dpq_pop_min(&mut self.heap);
                            match popped {
                                Some(pp) => {
                                    proof {
                                        assert(key_le(pp.1, mp.1));
                                        assert(key_le(mp.1, old(self).prios()[pp.0@]));
                                        assert(key_lt(pp.1, key));
                                    }
                                    let found2 = self.find_record(&pp.0);
                                    match found2 {
                                        Some(j) => {
                                            let ghost rec0 = self.records@;
                                            proof {
                                                lemma_amap_get(rec0, j as int);
                                                lemma_amap_remove(rec0, j as int);
                                            }
                                            let _ = self.records.remove(j);
                                            proof {
                                                assert forall|a: int|
                                                    0 <= a < self.records@.len() implies #[trigger] self
                                                    .records@[a].1.signature@ == self
                                                    .records@[a].0@ by {
                                                    let a0 = if a < j {
                                                        a as int
                                                    } else {
                                                        a + 1
                                                    };
                                                    assert(self.records@[a] == rec0[a0]);
                                                }
                                                assert(self.prios().dom() =~= self.txs().dom());
                                            }
                                            self.insert_fresh(tx, key, reputation.verdict);
                                            proof {
                                                let m = pp.0@;
                                                let pre = *old(self);
                                                assert(is_min_key(pre.prios(), m));
                                                assert(self.prios() == pre.prios().remove(m).insert(
                                                    tx.signature@,
                                                    key,
                                                ));
                                                assert(self.txs() =~= pre.txs().remove(m).insert(
                                                    tx.signature@,
                                                    tx,
                                                ));
                                            }
                                            Ok(true)
                                        },
                                        None => {
                                            proof {
                                                lemma_amap_dom(self.records@);
                                                assert(false);
                                            }
                                            vstd::pervasive::unreached()
                                        },
                                    }
                                },
                                None => {
                                    proof {
                                        assert(false);
                                    }
                                    vstd::pervasive::unreached()
                                },
                            }
                        },
                        None => {
                            // Capacity zero and nothing resident: admit directly.
                            self.insert_fresh(tx, key, reputation.verdict);
                            Ok(true)
                        },
                    }
                } else {
                    self.insert_fresh(tx, key, reputation.verdict);
                    Ok(true)
                }
            },
        }
    }

    /// How one extraction moves the queue: nothing when empty, otherwise a
    /// resident of greatest priority leaves both structures and is
    /// returned.
    pub open spec fn extract_transition(
        pre: PriorityQueue,
        post: PriorityQueue,
        r: Option<QueuedTransaction>,
    ) -> bool {
        &&& PriorityQueue::same_config(pre, post)
        &&& post.tick_spec() == pre.tick_spec()
        &&& match r {
            None => {
                &&& pre.prios().len() == 0
                &&& post.prios() == pre.prios()
                &&& post.txs() == pre.txs()
                &&& post.stats_spec().current_size == pre.stats_spec().current_size
            },
            Some(tx) => exists|k: Seq<char>|
                {
                    &&& is_max_key(pre.prios(), k)
                    &&& tx == pre.txs()[k]
                    &&& tx.signature@ == k
                    &&& post.prios() == pre.prios().remove(k)
                    &&& post.txs() == pre.txs().remove(k)
                    &&& post.stats_spec().current_size == pre.stats_spec().current_size - 1
                },
        }
    }

    /// The cumulative counters do not move.
    pub open spec fn same_counters(pre: PriorityQueue, post: PriorityQueue) -> bool {
        &&& post.stats_spec().total_enqueued == pre.stats_spec().total_enqueued
        &&& post.stats_spec().total_dequeued == pre.stats_spec().total_dequeued
        &&& post.stats_spec().total_dropped == pre.stats_spec().total_dropped
        &&& post.stats_spec().total_boosted == pre.stats_spec().total_boosted
        &&& post.stats_spec().total_reduced == pre.stats_spec().total_reduced
    }

    /// Remove and return a resident of greatest priority, keeping the size
    /// gauge true but leaving the cumulative counters to the caller.
    fn take_top(&mut self) -> (r: Option<QueuedTransaction>)
        requires
            old(self).wf(),
        ensures
            final(self).wf(),
            PriorityQueue::extract_transition(*old(self), *final(self), r),
            PriorityQueue::same_counters(*old(self), *final(self)),
    {
        proof {
            self.lemma_sizes();
        }
        let popped = dpq_pop_max(&mut self.heap);
        match popped {
            None => None,
            Some(pp) => {
                proof {
                    lemma_amap_dom(self.records@);
                }
                let found = self.find_record(&pp.0);
                match found {
                    Some(j) => {
                        let ghost rec0 = self.records@;
                        proof {
                            lemma_amap_get(rec0, j as int);
                            lemma_amap_remove(rec0, j as int);
                        }
                        let rec = self.records.remove(j);
                        self.stats.current_size = self.records.len();
                        proof {
                            assert forall|a: int| 0 <= a < self.records@.len() implies #[trigger] self
                                .records@[a].1.signature@ == self.records@[a].0@ by {
                                let a0 = if a < j { a as int } else { a + 1 };
                                assert(self.records@[a] == rec0[a0]);
                            }
                            assert(self.prios().dom() =~= self.txs().dom());
                            assert(is_max_key(old(self).prios(), pp.0@));
                        }
                        Some(rec.1)
                    },
                    None => {
                        proof {
                            assert(false);
                        }
                        vstd::pervasive::unreached()
                    },
                }
            },
        }
    }

    /// Dequeue the highest-priority transaction, or nothing when empty.
    pub fn dequeue(&mut self) -> (r: Option<QueuedTransaction>)
        requires
            old(self).wf(),
        ensures
            final(self).wf(),
            PriorityQueue::extract_transition(*old(self), *final(self), r),
            r is Some ==> final(self).stats_spec() == (QueueStats {
                total_dequeued: sat_add64(old(self).stats_spec().total_dequeued, 1),
                current_size: final(self).stats_spec().current_size,
                ..old(self).stats_spec()
            }),
            r is None ==> final(self).stats_spec() == old(self).stats_spec(),
    {
        let r = self.take_top();
        match &r {
            Some(_) => {
                self.stats.total_dequeued = self.stats.total_dequeued.saturating_add(1);
            },
            None => {},
        }
        r
    }

    /// How a batch extraction relates the result sequence to the queue: it
    /// holds exactly min(n, size) transactions, each the stored resident
    /// of its signature, pairwise distinct, in descending priority order,
    /// every one outranking everything left behind; the two structures
    /// lose exactly those keys.
    pub open spec fn batch_transition(
        pre: PriorityQueue,
        n: usize,
        post: PriorityQueue,
        s: Seq<QueuedTransaction>,
    ) -> bool {
        &&& s.len() == (if n <= pre.prios().len() {
            n as int
        } else {
            pre.prios().len() as int
        })
        &&& forall|i: int|
            0 <= i < s.len() ==> pre.prios().dom().contains(#[trigger] s[i].signature@) && s[i]
                == pre.txs()[s[i].signature@]
        &&& forall|i: int, j: int| 0 <= i < j < s.len() ==> s[i].signature@ != s[j].signature@
        &&& forall|i: int, j: int|
            #![trigger s[i].signature@, s[j].signature@]
            0 <= i < j < s.len() ==> key_le(pre.prios()[s[j].signature@], pre.prios()[s[i].signature@])
        &&& post.prios() == pre.prios().remove_keys(batch_keys(s))
        &&& post.txs() == pre.txs().remove_keys(batch_keys(s))
        &&& forall|i: int, k: Seq<char>|
            #![trigger s[i].signature@, post.prios().dom().contains(k)]
            0 <= i < s.len() && post.prios().dom().contains(k) ==> key_le(
                pre.prios()[k],
                pre.prios()[s[i].signature@],
            )
        &&& PriorityQueue::same_config(pre, post)
        &&& post.tick_spec() == pre.tick_spec()
        &&& post.stats_spec() == (QueueStats {
            total_dequeued: sat_add64(pre.stats_spec().total_dequeued, s.len() as u64),
            current_size: (pre.stats_spec().current_size - s.len()) as usize,
            ..pre.stats_spec()
        })
    }

    /// Dequeue up to `n` highest-priority transactions under one call, in
    /// descending priority order.
    pub fn dequeue_batch(&mut self, n: usize) -> (r: Vec<QueuedTransaction>)
        requires
            old(self).wf(),
        ensures
            final(self).wf(),
            PriorityQueue::batch_transition(*old(self), n, *final(self), r@),
    {
        let mut batch: Vec<QueuedTransaction> = Vec::new();
        let mut count: usize = 0;
        let mut done = false;
        proof {
            old(self).lemma_sizes();
            assert(self.prios() =~= old(self).prios().remove_keys(batch_keys(batch@)));
            assert(self.txs() =~= old(self).txs().remove_keys(batch_keys(batch@)));
        }
        while count < n && !done
            invariant
                self.wf(),
                count == batch@.len(),
                count <= n,
                PriorityQueue::same_config(*old(self), *self),
                PriorityQueue::same_counters(*old(self), *self),
                self.tick_spec() == old(self).tick_spec(),
                self.prios() == old(self).prios().remove_keys(batch_keys(batch@)),
                self.txs() == old(self).txs().remove_keys(batch_keys(batch@)),
                self.stats_spec().current_size == old(self).stats_spec().current_size - count,
                old(self).stats_spec().current_size == old(self).prios().len(),
                forall|i: int|
                    0 <= i < batch@.len() ==> old(self).prios().dom().contains(
                        #[trigger] batch@[i].signature@,
                    ) && batch@[i] == old(self).txs()[batch@[i].signature@],
                forall|i: int, j: int|
                    0 <= i < j < batch@.len() ==> batch@[i].signature@ != batch@[j].signature@,
                forall|i: int, j: int|
                    #![trigger batch@[i].signature@, batch@[j].signature@]
                    0 <= i < j < batch@.len() ==> key_le(
                        old(self).prios()[batch@[j].signature@],
                        old(self).prios()[batch@[i].signature@],
                    ),
                forall|i: int, k: Seq<char>|
                    #![trigger batch@[i].signature@, self.prios().dom().contains(k)]
                    0 <= i < batch@.len() && self.prios().dom().contains(k) ==> key_le(
                        old(self).prios()[k],
                        old(self).prios()[batch@[i].signature@],
                    ),
                done ==> self.prios().len() == 0,
            decreases n - count, (if done { 0int } else { 1int }),
        {
            let ghost mid = *self;
            let ghost batch0 = batch@;
            let taken = self.take_top();
            match taken {
                Some(tx) => {
                    batch.push(tx);
                    count = count + 1;
                    proof {
                        let k = choose|k: Seq<char>|
                            {
                                &&& is_max_key(mid.prios(), k)
                                &&& tx == mid.txs()[k]
                                &&& tx.signature@ == k
                                &&& self.prios() == mid.prios().remove(k)
                                &&& self.txs() == mid.txs().remove(k)
                                &&& self.stats_spec().current_size == mid.stats_spec().current_size
                                    - 1
                            };
                        assert forall|kk: Seq<char>| #[trigger] batch_keys(batch@).contains(kk)
                            implies batch_keys(batch0).insert(k).contains(kk) by {
                            let i = choose|i: int|
                                0 <= i < batch@.len() && batch@[i].signature@ == kk;
                            if i < batch0.len() {
                                assert(batch@[i] == batch0[i]);
                                assert(batch_keys(batch0).contains(kk));
                            } else {
                                assert(batch@[i] == tx);
                            }
                        }
                        assert forall|kk: Seq<char>| #[trigger] batch_keys(batch0).insert(
                            k,
                        ).contains(kk) implies batch_keys(batch@).contains(kk) by {
                            if kk == k {
                                assert(batch@[batch0.len() as int] == tx);
                                assert(batch@[batch0.len() as int].signature@ == kk);
                            } else {
                                let i = choose|i: int|
                                    0 <= i < batch0.len() && batch0[i].signature@ == kk;
                                assert(batch@[i] == batch0[i]);
                                assert(batch@[i].signature@ == kk);
                            }
                        }
                        assert(batch_keys(batch@) =~= batch_keys(batch0).insert(k));
                        assert(self.prios() =~= old(self).prios().remove_keys(batch_keys(batch@)));
                        assert(self.txs() =~= old(self).txs().remove_keys(batch_keys(batch@)));
                        assert(mid.prios()[k] == old(self).prios()[k]);
                        assert forall|i: int, kk: Seq<char>|
                            #![trigger batch@[i].signature@, self.prios().dom().contains(kk)]
                            0 <= i < batch@.len() && self.prios().dom().contains(kk) implies key_le(
                            old(self).prios()[kk],
                            old(self).prios()[batch@[i].signature@],
                        ) by {
                            if i < batch0.len() {
                                assert(batch@[i] == batch0[i]);
                                assert(mid.prios().dom().contains(kk));
                            } else {
                                assert(batch@[i] == tx);
                                assert(mid.prios().dom().contains(kk));
                                assert(key_le(mid.prios()[kk], mid.prios()[k]));
                                assert(mid.prios()[kk] == old(self).prios()[kk]);
                            }
                        }
                        assert forall|i: int, j: int|
                            #![trigger batch@[i].signature@, batch@[j].signature@]
                            0 <= i < j < batch@.len() implies key_le(
                            old(self).prios()[batch@[j].signature@],
                            old(self).prios()[batch@[i].signature@],
                        ) by {
                            if j < batch0.len() {
                                assert(batch@[i] == batch0[i] && batch@[j] == batch0[j]);
                            } else {
                                assert(batch@[j] == tx);
                                assert(batch@[i] == batch0[i]);
                                assert(mid.prios().dom().contains(k));
                            }
                        }
                        assert forall|i: int, j: int|
                            0 <= i < j < batch@.len() implies batch@[i].signature@
                            != batch@[j].signature@ by {
                            if j == batch0.len() {
                                assert(batch@[j] == tx);
                                assert(mid.prios().dom().contains(k));
                                assert(!batch_keys(batch0).contains(k));
                                assert(batch@[i] == batch0[i]);
                                assert(batch_keys(batch0).contains(batch0[i].signature@));
                            } else {
                                assert(batch@[i] == batch0[i] && batch@[j] == batch0[j]);
                            }
                        }
                    }
                },
                None => {
                    done = true;
                },
            }
        }
        self.stats.total_dequeued = self.stats.total_dequeued.saturating_add(count as u64);
        proof {
            self.lemma_sizes();
            if done {
                assert(batch@.len() == old(self).prios().len());
            } else {
                assert(batch@.len() == n);
            }
        }
        batch
    }

    /// Get the current queue size.
    pub fn len(&self) -> (r: usize)
        ensures
            r == self.prios().len(),
    {
        dpq_len(&self.heap)
    }

    /// Check whether the queue is empty.
    pub fn is_empty(&self) -> (r: bool)
        ensures
            r == (self.prios().len() == 0),
    {
        self.len() == 0
    }

    /// Get a snapshot of the queue statistics.
    pub fn stats(&self) -> (r: QueueStats)
        ensures
            r == self.stats_spec(),
    {
        self.stats
    }

    /// Clear the queue: both structures are emptied and the size gauge is
    /// reset; the cumulative counters are kept.
    pub fn clear(&mut self)
        requires
            old(self).wf(),
        ensures
            final(self).wf(),
            final(self).prios() == dpq_empty(),
            final(self).txs().len() == 0,
            final(self).stats_spec() == (QueueStats {
                current_size: 0,
                ..old(self).stats_spec()
            }),
            PriorityQueue::same_config(*old(self), *final(self)),
            final(self).tick_spec() == old(self).tick_spec(),
    {
        dpq_clear(&mut self.heap);
        self.records.clear();
        self.stats.current_size = 0;
        proof {
            lemma_amap_dom(self.records@);
            assert(self.prios().dom() =~= self.txs().dom());
            lemma_amap_len(self.records@);
        }
    }
    /// The number of stored records (spec-level helper).
    pub closed spec fn records_len(self) -> int {
        self.records@.len() as int
    }
}

} // verus!
