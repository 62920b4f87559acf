//! Reputation lookups with a time-bounded cache.
//!
//! The transport that actually reaches the judgment service lives outside
//! this library: a caller first asks the cache, and only on a miss
//! performs the remote call, handing whatever came back (or nothing, on
//! any transport or protocol failure) to [`ReputationCache::resolve`],
//! which converts it, enforces the confidence cap and caches it.  A
//! downstream outage therefore degrades to the neutral default score and
//! never blocks admission.

use vstd::prelude::*;
use vstd::string::StringExecFns;
use crate::assoc::{amap, find_key, keys_distinct, lemma_amap_dom, lemma_amap_get, lemma_amap_len,
    lemma_amap_push, lemma_amap_remove, lemma_push_distinct};
use crate::{ReputationScore, Verdict, MAX_CONFIDENCE_TENTHS};

verus! {

/// Largest number of cache entries tolerated before an insertion triggers
/// a sweep of expired entries.
pub const CACHE_MAX_ENTRIES: usize = 10_000;

/// A judgment as decoded from the remote service's response, with every
/// score already scaled to tenths.  The confidence is whatever the
/// service claimed; the cap is enforced here, not trusted from upstream.
#[derive(Debug, Clone, Copy)]
pub struct RemoteJudgment {
    /// Quality score in tenths.
    pub q_score: u64,
    /// Verdict.
    pub verdict: Verdict,
    /// Token-specific score in tenths (optional).
    pub k_score: Option<u64>,
    /// Wallet-specific score in tenths (optional).
    pub e_score: Option<u64>,
    /// Claimed confidence in tenths of a percent, unbounded.
    pub confidence: u64,
}

/// Cached reputation entry.
#[derive(Debug, Clone, Copy)]
pub struct CacheEntry {
    /// The cached score.
    pub score: ReputationScore,
    /// When it was cached, in caller-supplied clock ticks (milliseconds).
    pub cached_at: u64,
}

/// An entry is fresh at `now` while its age is under the TTL.
pub open spec fn spec_fresh(e: CacheEntry, now: u64, ttl: u64) -> bool {
    e.cached_at <= now && now - e.cached_at < ttl
}

/// A score with its confidence clamped to the φ⁻¹ cap.
pub open spec fn spec_cap(score: ReputationScore) -> ReputationScore {
    ReputationScore {
        confidence: if score.confidence > MAX_CONFIDENCE_TENTHS {
            MAX_CONFIDENCE_TENTHS
        } else {
            score.confidence
        },
        ..score
    }
}

/// The score a remote outcome resolves to: the decoded judgment under the
/// confidence cap, or the neutral default when nothing usable came back.
pub open spec fn spec_resolved(remote: Option<RemoteJudgment>) -> ReputationScore {
    match remote {
        Some(j) => spec_cap(
            ReputationScore {
                q_score: j.q_score,
                verdict: j.verdict,
                k_score: j.k_score,
                e_score: j.e_score,
                confidence: j.confidence,
            },
        ),
        None => ReputationScore::spec_default(),
    }
}

/// A cache map after the lazy sweep: exactly the fresh entries survive.
pub open spec fn swept(m: Map<Seq<char>, CacheEntry>, now: u64, ttl: u64) -> Map<
    Seq<char>,
    CacheEntry,
> {
    Map::new(|k: Seq<char>| m.dom().contains(k) && spec_fresh(m[k], now, ttl), |k: Seq<char>| m[k])
}

/// An empty cache map.
pub open spec fn cache_empty() -> Map<Seq<char>, CacheEntry> {
    Map::empty()
}

/// The cache key of a wallet subject: the address itself.
pub open spec fn spec_wallet_key(address: Seq<char>) -> Seq<char> {
    address
}

/// The cache key of a token subject: the mint under a distinguishing
/// prefix, so wallet and token identities never collide in the cache.
pub open spec fn spec_token_key(mint: Seq<char>) -> Seq<char> {
    "token:"@ + mint
}

/// The same subject string never keys both kinds at once.
pub proof fn lemma_kind_keys_distinct(subject: Seq<char>)
    ensures
        spec_token_key(subject) != spec_wallet_key(subject),
{
    reveal_strlit("token:");
    assert(spec_token_key(subject).len() == subject.len() + 6);
}

/// Build the cache key of a wallet subject.
pub fn wallet_cache_key(address: &str) -> (r: String)
    ensures
        r@ == spec_wallet_key(address@),
{
    String::from_str(address)
}

/// Build the cache key of a token subject.
pub fn token_cache_key(mint: &str) -> (r: String)
    ensures
        r@ == spec_token_key(mint@),
{
    let prefix: String = String::from_str("token:");
    prefix.concat(mint)
}

/// Convert a remote outcome into the score it resolves to.
pub fn score_from_response(remote: Option<RemoteJudgment>) -> (r: ReputationScore)
    ensures
        r == spec_resolved(remote),
        r.wf(),
{
    match remote {
        Some(j) => ReputationScore {
            q_score: j.q_score,
            verdict: j.verdict,
            k_score: j.k_score,
            e_score: j.e_score,
            confidence: if j.confidence > MAX_CONFIDENCE_TENTHS {
                MAX_CONFIDENCE_TENTHS
            } else {
                j.confidence
            },
        },
        None => ReputationScore::default(),
    }
}

/// Time-bounded reputation cache, keyed by a subject-kind-scoped string.
/// Callers that share one across threads put it behind a reader-writer
/// lock: lookups take `&self`, stores take `&mut self`.
pub struct ReputationCache {
    entries: Vec<(String, CacheEntry)>,
    cache_ttl: u64,
}

impl ReputationCache {
    /// The cached entries, as a map from subject key to entry.
    pub closed spec fn view(self) -> Map<Seq<char>, CacheEntry> {
        amap(self.entries@)
    }

    /// The configured time-to-live, in ticks.
    pub closed spec fn ttl_spec(self) -> u64 {
        self.cache_ttl
    }

    /// Every cached score obeys the confidence cap, and the keys are
    /// distinct.
    pub closed spec fn wf(self) -> bool {
        &&& keys_distinct(self.entries@)
        &&& forall|i: int|
            0 <= i < self.entries@.len() ==> (#[trigger] self.entries@[i].1).score.confidence
                <= MAX_CONFIDENCE_TENTHS
    }

    /// A lookup of `k` at `now` hits the cache.
    pub open spec fn spec_hit(self, k: Seq<char>, now: u64) -> bool {
        self.view().dom().contains(k) && spec_fresh(self.view()[k], now, self.ttl_spec())
    }

    /// Create an empty cache with the given time-to-live in ticks.
    pub fn new(cache_ttl: u64) -> (r: Self)
        ensures
            r.wf(),
            r.view() == cache_empty(),
            r.ttl_spec() == cache_ttl,
    {
        ReputationCache { entries: Vec::new(), cache_ttl }
    }

    /// Return the cached score for a key if it is still fresh at `now`.
    pub fn get_cached(&self, key: &String, now: u64) -> (r: Option<ReputationScore>)
        requires
            self.wf(),
        ensures
            match r {
                Some(s) => self.spec_hit(key@, now) && s == self.view()[key@].score && s.wf(),
                None => !self.spec_hit(key@, now),
            },
    {
        match find_key(&self.entries, key) {
            Some(i) => {
                proof {
                    lemma_amap_get(self.entries@, i as int);
                }
                let e = self.entries[i].1;
                if e.cached_at <= now && now - e.cached_at < self.cache_ttl {
                    Some(e.score)
                } else {
                    None
                }
            },
            None => {
                proof {
                    lemma_amap_dom(self.entries@);
                }
                None
            },
        }
    }

    /// Cache a score under a key at `now`, capping its confidence first.
    /// If the cache then exceeds its capacity, sweep out every entry whose
    /// age reaches the TTL - a lazy eviction run only on the insertion
    /// that crosses the threshold.
    pub fn cache_score(&mut self, key: &String, score: ReputationScore, now: u64)
        requires
            old(self).wf(),
        ensures
            final(self).wf(),
            final(self).ttl_spec() == old(self).ttl_spec(),
            ({
                let inserted = old(self).view().insert(
                    key@,
                    CacheEntry { score: spec_cap(score), cached_at: now },
                );
                final(self).view() == (if inserted.len() > CACHE_MAX_ENTRIES {
                    swept(inserted, now, old(self).ttl_spec())
                } else {
                    inserted
                })
            }),
    {
        let capped = ReputationScore {
            q_score: score.q_score,
            verdict: score.verdict,
            k_score: score.k_score,
            e_score: score.e_score,
            confidence: if score.confidence > MAX_CONFIDENCE_TENTHS {
                MAX_CONFIDENCE_TENTHS
            } else {
                score.confidence
            },
        };
        let entry = CacheEntry { score: capped, cached_at: now };
        match find_key(&self.entries, key) {
            Some(i) => {
                let ghost rec0 = self.entries@;
                proof {
                    lemma_amap_get(rec0, i as int);
                    lemma_amap_remove(rec0, i as int);
                }
                let _ = self.entries.remove(i);
                proof {
                    assert forall|a: int| 0 <= a < self.entries@.len() implies (#[trigger] self
                        .entries@[a].1).score.confidence <= MAX_CONFIDENCE_TENTHS by {
                        let a0 = if a < i { a as int } else { a + 1 };
                        assert(self.entries@[a] == rec0[a0]);
                    }
                }
            },
            None => {
                proof {
                    lemma_amap_dom(self.entries@);
                }
            },
        }
        let keyc = key.clone();
        let ghost pre_push = self.entries@;
        self.entries.push((keyc, entry));
        proof {
            lemma_amap_push(pre_push, keyc, entry);
            lemma_push_distinct(pre_push, keyc, entry);
            assert forall|a: int| 0 <= a < self.entries@.len() implies (#[trigger] self
                .entries@[a].1).score.confidence <= MAX_CONFIDENCE_TENTHS by {
                if a < pre_push.len() {
                    assert(self.entries@[a] == pre_push[a]);
                } else {
                    assert(self.entries@[a] == (keyc, entry));
                }
            }
            assert(self.view() =~= old(self).view().remove(key@).insert(key@, entry));
            assert(self.view() =~= old(self).view().insert(key@, entry));
            assert(capped == spec_cap(score));
            lemma_amap_len(self.entries@);
        }
        if self.entries.len() > CACHE_MAX_ENTRIES {
            self.sweep(now);
        }
    }

    /// Remove every entry whose age reaches the TTL.
    fn sweep(&mut self, now: u64)
        requires
            old(self).wf(),
        ensures
            final(self).wf(),
            final(self).ttl_spec() == old(self).ttl_spec(),
            final(self).view() == swept(old(self).view(), now, old(self).ttl_spec()),
    {
        let ghost pre = self.entries@;
        let mut kept: Vec<(String, CacheEntry)> = Vec::new();
        let n = self.entries.len();
        let mut i: usize = 0;
        while i < n
            invariant
                n == pre.len(),
                i <= n,
                self.entries@ == pre,
                self.wf(),
                keys_distinct(kept@),
                forall|a: int|
                    0 <= a < kept@.len() ==> (#[trigger] kept@[a].1).score.confidence
                        <= MAX_CONFIDENCE_TENTHS,
                forall|kk: Seq<char>|
                    #[trigger] amap(kept@).dom().contains(kk) <==> exists|j: int|
                        0 <= j < i && pre[j].0@ == kk && spec_fresh(
                            pre[j].1,
                            now,
                            self.cache_ttl,
                        ),
                forall|kk: Seq<char>|
                    #[trigger] amap(kept@).dom().contains(kk) ==> amap(kept@)[kk] == amap(pre)[kk],
            decreases n - i,
        {
            let fresh_here = self.entries[i].1.cached_at <= now && now - self.entries[i].1.cached_at
                < self.cache_ttl;
            let ghost kept0 = kept@;
            if fresh_here {
                proof {
                    lemma_amap_get(pre, i as int);
                    if amap(kept0).dom().contains(pre[i as int].0@) {
                        let j = choose|j: int|
                            0 <= j < i && pre[j].0@ == pre[i as int].0@ && spec_fresh(
                                pre[j].1,
                                now,
                                self.cache_ttl,
                            );
                        assert(false);
                    }
                    lemma_amap_push(kept0, self.entries@[i as int].0, self.entries@[i as int].1);
                    lemma_push_distinct(
                        kept0,
                        self.entries@[i as int].0,
                        self.entries@[i as int].1,
                    );
                }
                let k = self.entries[i].0.clone();
                let e = self.entries[i].1;
                kept.push((k, e));
                proof {
                    assert(kept@ == kept0.push((k, e)));
                    assert forall|kk: Seq<char>| #[trigger] amap(kept@).dom().contains(kk)
                        implies exists|j: int|
                        0 <= j < i + 1 && pre[j].0@ == kk && spec_fresh(
                            pre[j].1,
                            now,
                            self.cache_ttl,
                        ) by {
                        if kk == k@ {
                            assert(pre[i as int].0@ == kk && spec_fresh(
                                pre[i as int].1,
                                now,
                                self.cache_ttl,
                            ));
                        }
                    }
                    assert forall|kk: Seq<char>|
                        (exists|j: int|
                            0 <= j < i + 1 && pre[j].0@ == kk && spec_fresh(
                                pre[j].1,
                                now,
                                self.cache_ttl,
                            )) implies #[trigger] amap(kept@).dom().contains(kk) by {
                        let j = choose|j: int|
                            0 <= j < i + 1 && pre[j].0@ == kk && spec_fresh(
                                pre[j].1,
                                now,
                                self.cache_ttl,
                            );
                        if j < i {
                            assert(amap(kept0).dom().contains(kk));
                        } else {
                            assert(kk == k@);
                        }
                    }
                }
            } else {
                proof {
                    lemma_amap_get(pre, i as int);
                    assert forall|kk: Seq<char>|
                        (exists|j: int|
                            0 <= j < i + 1 && pre[j].0@ == kk && spec_fresh(
                                pre[j].1,
                                now,
                                self.cache_ttl,
                            )) implies #[trigger] amap(kept@).dom().contains(kk) by {
                        let j = choose|j: int|
                            0 <= j < i + 1 && pre[j].0@ == kk && spec_fresh(
                                pre[j].1,
                                now,
                                self.cache_ttl,
                            );
                        assert(j < i);
                    }
                }
            }
            i = i + 1;
        }
        self.entries = kept;
        proof {
            lemma_amap_dom(pre);
            assert forall|kk: Seq<char>| #[trigger] self.view().dom().contains(kk) implies swept(
                amap(pre),
                now,
                self.cache_ttl,
            ).dom().contains(kk) by {
                let j = choose|j: int|
                    0 <= j < pre.len() && pre[j].0@ == kk && spec_fresh(
                        pre[j].1,
                        now,
                        self.cache_ttl,
                    );
                lemma_amap_get(pre, j);
            }
            assert forall|kk: Seq<char>| swept(amap(pre), now, self.cache_ttl).dom().contains(
                kk,
            ) implies #[trigger] self.view().dom().contains(kk) by {
                let j = choose|j: int| 0 <= j < pre.len() && pre[j].0@ == kk;
                lemma_amap_get(pre, j);
            }
            assert(self.view() =~= swept(amap(pre), now, self.cache_ttl));
        }
    }

    /// Resolve a remote lookup outcome for a key at `now`: convert it (or
    /// substitute the neutral default), cache it, and return it.
    pub fn resolve(&mut self, key: &String, remote: Option<RemoteJudgment>, now: u64) -> (r:
        ReputationScore)
        requires
            old(self).wf(),
        ensures
            final(self).wf(),
            final(self).ttl_spec() == old(self).ttl_spec(),
            r == spec_resolved(remote),
            r.wf(),
            ({
                let inserted = old(self).view().insert(
                    key@,
                    CacheEntry { score: spec_resolved(remote), cached_at: now },
                );
                final(self).view() == (if inserted.len() > CACHE_MAX_ENTRIES {
                    swept(inserted, now, old(self).ttl_spec())
                } else {
                    inserted
                })
            }),
    {
        let score = score_from_response(remote);
        proof {
            assert(spec_cap(score) == score);
        }
        self.cache_score(key, score, now);
        score
    }


    /// The addresses of `addrs` that hit the cache at `now`, each beside
    /// its cached score, in their order of arrival.
    pub open spec fn spec_hits(self, addrs: Seq<String>, now: u64) -> Seq<(String, ReputationScore)>
        decreases addrs.len(),
    {
        if addrs.len() == 0 {
            Seq::empty()
        } else {
            let rest = self.spec_hits(addrs.drop_last(), now);
            if self.spec_hit(addrs.last()@, now) {
                rest.push((addrs.last(), self.view()[addrs.last()@].score))
            } else {
                rest
            }
        }
    }

    /// The addresses of `addrs` that miss the cache at `now`, in their
    /// order of arrival.
    pub open spec fn spec_misses(self, addrs: Seq<String>, now: u64) -> Seq<String>
        decreases addrs.len(),
    {
        if addrs.len() == 0 {
            Seq::empty()
        } else {
            let rest = self.spec_misses(addrs.drop_last(), now);
            if self.spec_hit(addrs.last()@, now) {
                rest
            } else {
                rest.push(addrs.last())
            }
        }
    }

    /// Partition a batch of subjects into those already served by the
    /// cache, beside their scores, and those that still need a remote
    /// lookup; both sides keep the order of arrival.
    pub fn partition_cached(&self, addresses: &Vec<String>, now: u64) -> (r: (
        Vec<(String, ReputationScore)>,
        Vec<String>,
    ))
        requires
            self.wf(),
        ensures
            r.0@ == self.spec_hits(addresses@, now),
            r.1@ == self.spec_misses(addresses@, now),
    {
        let mut hits: Vec<(String, ReputationScore)> = Vec::new();
        let mut misses: Vec<String> = Vec::new();
        let n = addresses.len();
        let mut i: usize = 0;
        while i < n
            invariant
                self.wf(),
                n == addresses@.len(),
                i <= n,
                hits@ == self.spec_hits(addresses@.take(i as int), now),
                misses@ == self.spec_misses(addresses@.take(i as int), now),
            decreases n - i,
        {
            proof {
                assert(addresses@.take(i + 1).drop_last() =~= addresses@.take(i as int));
                assert(addresses@.take(i + 1).last() == addresses@[i as int]);
            }
            match self.get_cached(&addresses[i], now) {
                Some(score) => {
                    hits.push((addresses[i].clone(), score));
                },
                None => {
                    misses.push(addresses[i].clone());
                },
            }
            i = i + 1;
        }
        proof {
            assert(addresses@.take(n as int) =~= addresses@);
        }
        (hits, misses)
    }

    /// Clear the cache.
    pub fn clear_cache(&mut self)
        ensures
            final(self).wf(),
            final(self).view() == cache_empty(),
            final(self).ttl_spec() == old(self).ttl_spec(),
    {
        self.entries.clear();
    }

    /// The number of entries of the prefix that are fresh at `now`.
    pub closed spec fn fresh_prefix_count(s: Seq<(String, CacheEntry)>, now: u64, ttl: u64) -> int
        decreases s.len(),
    {
        if s.len() == 0 {
            0
        } else {
            Self::fresh_prefix_count(s.drop_last(), now, ttl) + (if spec_fresh(s.last().1, now, ttl) {
                1int
            } else {
                0int
            })
        }
    }

    /// The number of cached entries that are fresh at `now`.
    pub closed spec fn fresh_count(self, now: u64) -> int {
        Self::fresh_prefix_count(self.entries@, now, self.cache_ttl)
    }

    /// The fresh entries never outnumber the entries.
    proof fn lemma_fresh_prefix_bound(s: Seq<(String, CacheEntry)>, now: u64, ttl: u64)
        ensures
            0 <= Self::fresh_prefix_count(s, now, ttl) <= s.len(),
        decreases s.len(),
    {
        if s.len() > 0 {
            Self::lemma_fresh_prefix_bound(s.drop_last(), now, ttl);
        }
    }

    /// Get cache statistics at `now`: how many entries are still fresh,
    /// and how many there are in all.
    pub fn cache_stats(&self, now: u64) -> (r: (usize, usize))
        requires
            self.wf(),
        ensures
            r.0 == self.fresh_count(now),
            r.1 == self.view().len(),
            r.0 <= r.1,
    {
        let n = self.entries.len();
        let mut valid: usize = 0;
        let mut i: usize = 0;
        while i < n
            invariant
                n == self.entries@.len(),
                i <= n,
                valid == Self::fresh_prefix_count(self.entries@.take(i as int), now, self.cache_ttl),
                valid <= i,
            decreases n - i,
        {
            let ghost t0 = self.entries@.take(i as int);
            let fresh_here = self.entries[i].1.cached_at <= now && now - self.entries[i].1.cached_at
                < self.cache_ttl;
            proof {
                assert(self.entries@.take(i + 1).drop_last() =~= t0);
                assert(self.entries@.take(i + 1).last() == self.entries@[i as int]);
            }
            if fresh_here {
                valid = valid + 1;
            }
            i = i + 1;
        }
        proof {
            assert(self.entries@.take(n as int) =~= self.entries@);
            lemma_amap_len(self.entries@);
        }
        (valid, n)
    }
}

/// Once a score is cached for a subject at time `now`, a second lookup of
/// the same subject at any time `now2` within the TTL window hits the
/// cache, so no further remote call is needed; the entry survives even a
/// capacity sweep run at the moment of insertion.  Once the TTL has
/// elapsed the entry is no longer fresh, so a lookup misses and exactly
/// one remote call refreshes it.
pub proof fn lemma_cache_ttl(
    m: Map<Seq<char>, CacheEntry>,
    key: Seq<char>,
    score: ReputationScore,
    now: u64,
    now2: u64,
    ttl: u64,
)
    requires
        now <= now2,
    ensures
        ({
            let e = CacheEntry { score, cached_at: now };
            let stored = m.insert(key, e);
            &&& now2 - now < ttl ==> spec_fresh(e, now2, ttl)
            &&& now2 - now < ttl ==> stored.dom().contains(key) && stored[key].score == score
            &&& now2 - now < ttl ==> swept(stored, now, ttl).dom().contains(key) && swept(
                stored,
                now,
                ttl,
            )[key].score == score
            &&& now2 - now >= ttl ==> !spec_fresh(e, now2, ttl)
        }),
{
}

} // verus!
