//! Association lists with unique keys, and their abstraction to `Map`.
//!
//! Every map-shaped piece of state in this crate (mistype counts, the
//! per-character and per-pair stores, and the per-session analysis) is an
//! ordered `Vec` of entries with pairwise distinct keys. The spec functions
//! here abstract such a list to a `Map`, through a caller-supplied view on
//! the values, and the lemmas relate list edits to `Map` inserts.

use vstd::prelude::*;

use crate::analytics::CharPair;

verus! {

/// Keys of the list are pairwise distinct.
pub open spec fn keys_unique<K, V>(s: Seq<(K, V)>) -> bool {
    forall|i: int, j: int| 0 <= i < j < s.len() ==> s[i].0 != s[j].0
}

/// The sequence of keys, in list order.
pub open spec fn assoc_keys<K, V>(s: Seq<(K, V)>) -> Seq<K> {
    s.map_values(|p: (K, V)| p.0)
}

/// The map an association list stands for, viewing each value through `f`.
/// With unique keys every entry is visible; without, a later entry wins.
pub open spec fn assoc_map<K, V, M>(s: Seq<(K, V)>, f: spec_fn(V) -> M) -> Map<K, M>
    decreases s.len(),
{
    if s.len() == 0 {
        Map::empty()
    } else {
        assoc_map(s.drop_last(), f).insert(s.last().0, f(s.last().1))
    }
}

/// A key is in the map exactly when some entry carries it.
pub proof fn lemma_assoc_contains<K, V, M>(s: Seq<(K, V)>, f: spec_fn(V) -> M, k: K)
    ensures
        assoc_map(s, f).contains_key(k) <==> exists|i: int| 0 <= i < s.len() && s[i].0 == k,
    decreases s.len(),
{
    if s.len() > 0 {
        lemma_assoc_contains(s.drop_last(), f, k);
        if s.last().0 != k {
            if exists|i: int| 0 <= i < s.len() && s[i].0 == k {
                let i = choose|i: int| 0 <= i < s.len() && s[i].0 == k;
                assert(s.drop_last()[i] == s[i]);
            }
        }
    }
}

/// With unique keys, the map sends the key of entry `i` to its viewed value.
pub proof fn lemma_assoc_at<K, V, M>(s: Seq<(K, V)>, f: spec_fn(V) -> M, i: int)
    requires
        keys_unique(s),
        0 <= i < s.len(),
    ensures
        assoc_map(s, f).contains_key(s[i].0),
        assoc_map(s, f)[s[i].0] == f(s[i].1),
    decreases s.len(),
{
    lemma_assoc_contains(s, f, s[i].0);
    if i < s.len() - 1 {
        assert(s.drop_last()[i] == s[i]);
        lemma_assoc_at(s.drop_last(), f, i);
    }
}

/// Appending an entry with a fresh key inserts it into the map.
pub proof fn lemma_assoc_push<K, V, M>(s: Seq<(K, V)>, f: spec_fn(V) -> M, k: K, v: V)
    requires
        forall|i: int| 0 <= i < s.len() ==> s[i].0 != k,
        keys_unique(s),
    ensures
        keys_unique(s.push((k, v))),
        assoc_map(s.push((k, v)), f) == assoc_map(s, f).insert(k, f(v)),
        assoc_keys(s.push((k, v))) == assoc_keys(s).push(k),
{
    let s2 = s.push((k, v));
    assert(s2.drop_last() =~= s);
    assert(assoc_keys(s2) =~= assoc_keys(s).push(k));
}

/// Overwriting the value of entry `i` (keeping its key) re-inserts that key.
pub proof fn lemma_assoc_update<K, V, M>(s: Seq<(K, V)>, f: spec_fn(V) -> M, i: int, v: V)
    requires
        keys_unique(s),
        0 <= i < s.len(),
    ensures
        keys_unique(s.update(i, (s[i].0, v))),
        assoc_map(s.update(i, (s[i].0, v)), f) == assoc_map(s, f).insert(s[i].0, f(v)),
        assoc_keys(s.update(i, (s[i].0, v))) == assoc_keys(s),
    decreases s.len(),
{
    let k = s[i].0;
    let s2 = s.update(i, (k, v));
    assert(assoc_keys(s2) =~= assoc_keys(s));
    if i == s.len() - 1 {
        assert(s2.drop_last() =~= s.drop_last());
        assert(s2.last() == (k, v));
        assert(assoc_map(s2, f) == assoc_map(s.drop_last(), f).insert(k, f(v)));
        assert(assoc_map(s, f) == assoc_map(s.drop_last(), f).insert(k, f(s[i].1)));
        assert(assoc_map(s.drop_last(), f).insert(k, f(s[i].1)).insert(k, f(v)) =~= assoc_map(
            s.drop_last(),
            f,
        ).insert(k, f(v)));
    } else {
        assert(s2.drop_last() =~= s.drop_last().update(i, (k, v)));
        assert(s.drop_last()[i] == s[i]);
        lemma_assoc_update(s.drop_last(), f, i, v);
        assert(s2.last() == s.last());
        let m = assoc_map(s.drop_last(), f);
        assert(assoc_map(s2, f) == m.insert(k, f(v)).insert(s.last().0, f(s.last().1)));
        assert(assoc_map(s, f) == m.insert(s.last().0, f(s.last().1)));
        assert(s.last().0 != k);
        assert(m.insert(k, f(v)).insert(s.last().0, f(s.last().1)) =~= m.insert(
            s.last().0,
            f(s.last().1),
        ).insert(k, f(v)));
    }
}

/// Index of the first entry keyed `k` in a character-keyed list.
pub fn find_char_key<V>(entries: &Vec<(char, V)>, k: char) -> (r: Option<usize>)
    ensures
        match r {
            Some(i) => i < entries@.len() && entries@[i as int].0 == k,
            None => forall|i: int| 0 <= i < entries@.len() ==> entries@[i].0 != k,
        },
{
    let n = entries.len();
    for i in 0..n
        invariant
            n == entries@.len(),
            forall|j: int| 0 <= j < i ==> entries@[j].0 != k,
    {
        if entries[i].0 == k {
            return Some(i);
        }
    }
    None
}

/// Index of the first entry keyed `k` in a pair-keyed list.
pub fn find_pair_key<V>(entries: &Vec<(CharPair, V)>, k: CharPair) -> (r: Option<usize>)
    ensures
        match r {
            Some(i) => i < entries@.len() && entries@[i as int].0 == k,
            None => forall|i: int| 0 <= i < entries@.len() ==> entries@[i].0 != k,
        },
{
    let n = entries.len();
    for i in 0..n
        invariant
            n == entries@.len(),
            forall|j: int| 0 <= j < i ==> entries@[j].0 != k,
    {
        if entries[i].0 == k {
            return Some(i);
        }
    }
    None
}

} // verus!
