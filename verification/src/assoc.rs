//! Association lists with a mathematical map view.
//!
//! Both the priority queue's record store and the reputation cache keep
//! their entries in a vector of `(String, value)` pairs with pairwise
//! distinct keys.  This module gives such a sequence its `Map` view and
//! proves how the view moves under push and removal.

use vstd::prelude::*;

verus! {

/// The map view of an association sequence: later pairs win, so with
/// distinct keys every pair is visible.
pub open spec fn amap<V>(s: Seq<(String, V)>) -> Map<Seq<char>, V>
    decreases s.len(),
{
    if s.len() == 0 {
        Map::empty()
    } else {
        amap(s.drop_last()).insert(s.last().0@, s.last().1)
    }
}

/// All keys of the association sequence are pairwise distinct.
pub open spec fn keys_distinct<V>(s: Seq<(String, V)>) -> bool {
    forall|i: int, j: int| 0 <= i < j < s.len() ==> s[i].0@ != s[j].0@
}

/// The domain of the map view is exactly the set of keys in the sequence,
/// and it is finite.
pub proof fn lemma_amap_dom<V>(s: Seq<(String, V)>)
    ensures
        forall|k: Seq<char>|
            amap(s).dom().contains(k) <==> exists|i: int| 0 <= i < s.len() && s[i].0@ == k,
        amap(s).dom().finite(),
        amap(s).dom().len() <= s.len(),
    decreases s.len(),
{
    if s.len() == 0 {
    } else {
        lemma_amap_dom(s.drop_last());
        assert forall|k: Seq<char>| amap(s).dom().contains(k) implies exists|i: int|
            0 <= i < s.len() && s[i].0@ == k by {
            if k == s.last().0@ {
                assert(s[s.len() - 1].0@ == k);
            } else {
                let i = choose|i: int| 0 <= i < s.drop_last().len() && s.drop_last()[i].0@ == k;
                assert(s[i].0@ == k);
            }
        }
        assert forall|k: Seq<char>| (exists|i: int| 0 <= i < s.len() && s[i].0@ == k) implies amap(
            s,
        ).dom().contains(k) by {
            let i = choose|i: int| 0 <= i < s.len() && s[i].0@ == k;
            if i == s.len() - 1 {
            } else {
                assert(s.drop_last()[i].0@ == k);
            }
        }
    }
}

/// With distinct keys, the map view holds exactly the value stored beside
/// each key.
pub proof fn lemma_amap_get<V>(s: Seq<(String, V)>, i: int)
    requires
        keys_distinct(s),
        0 <= i < s.len(),
    ensures
        amap(s).dom().contains(s[i].0@),
        amap(s)[s[i].0@] == s[i].1,
    decreases s.len(),
{
    if i == s.len() - 1 {
    } else {
        assert(s.drop_last()[i] == s[i]);
        lemma_amap_get(s.drop_last(), i);
        assert(s[i].0@ != s.last().0@);
    }
}

/// With distinct keys, the map view has as many entries as the sequence.
pub proof fn lemma_amap_len<V>(s: Seq<(String, V)>)
    requires
        keys_distinct(s),
    ensures
        amap(s).dom().finite(),
        amap(s).dom().len() == s.len(),
    decreases s.len(),
{
    if s.len() == 0 {
    } else {
        lemma_amap_len(s.drop_last());
        lemma_amap_dom(s.drop_last());
        assert(!amap(s.drop_last()).dom().contains(s.last().0@));
    }
}

/// Appending a pair inserts it into the map view.
pub proof fn lemma_amap_push<V>(s: Seq<(String, V)>, key: String, v: V)
    ensures
        amap(s.push((key, v))) == amap(s).insert(key@, v),
{
    assert(s.push((key, v)).drop_last() =~= s);
    assert(s.push((key, v)).last() == (key, v));
}

/// Appending a pair with a key not yet present keeps the keys distinct.
pub proof fn lemma_push_distinct<V>(s: Seq<(String, V)>, key: String, v: V)
    requires
        keys_distinct(s),
        !amap(s).dom().contains(key@),
    ensures
        keys_distinct(s.push((key, v))),
{
    lemma_amap_dom(s);
    let t = s.push((key, v));
    assert forall|i: int, j: int| 0 <= i < j < t.len() implies t[i].0@ != t[j].0@ by {
        if j == s.len() {
            assert(s[i].0@ == t[i].0@);
        }
    }
}

/// Removing the pair at a position removes its key from the map view and
/// keeps the remaining keys distinct.
pub proof fn lemma_amap_remove<V>(s: Seq<(String, V)>, i: int)
    requires
        keys_distinct(s),
        0 <= i < s.len(),
    ensures
        amap(s.remove(i)) =~= amap(s).remove(s[i].0@),
        keys_distinct(s.remove(i)),
    decreases s.len(),
{
    assert forall|a: int, b: int| 0 <= a < b < s.remove(i).len() implies s.remove(i)[a].0@
        != s.remove(i)[b].0@ by {
        let a0 = if a < i { a } else { a + 1 };
        let b0 = if b < i { b } else { b + 1 };
        assert(s.remove(i)[a] == s[a0] && s.remove(i)[b] == s[b0]);
    }
    lemma_amap_dom(s.drop_last());
    if i == s.len() - 1 {
        assert(s.remove(i) =~= s.drop_last());
        assert(!amap(s.drop_last()).dom().contains(s.last().0@));
        assert(amap(s.drop_last()).remove(s.last().0@) =~= amap(s.drop_last()));
    } else {
        lemma_amap_remove(s.drop_last(), i);
        assert(s.remove(i).drop_last() =~= s.drop_last().remove(i));
        assert(s.remove(i).last() == s.last());
        assert(s.drop_last()[i] == s[i]);
        assert(s[i].0@ != s.last().0@);
    }
}

/// Find the index of the pair stored under a key.
pub fn find_key<V>(v: &Vec<(String, V)>, key: &String) -> (r: Option<usize>)
    ensures
        match r {
            Some(i) => 0 <= i < v@.len() && v@[i as int].0@ == key@,
            None => forall|i: int| 0 <= i < v@.len() ==> #[trigger] v@[i].0@ != key@,
        },
{
    let n = v.len();
    let mut i: usize = 0;
    while i < n
        invariant
            n == v@.len(),
            i <= n,
            forall|j: int| 0 <= j < i ==> #[trigger] v@[j].0@ != key@,
        decreases n - i,
    {
        if v[i].0 == *key {
            return Some(i);
        }
        i = i + 1;
    }
    None
}

} // verus!
