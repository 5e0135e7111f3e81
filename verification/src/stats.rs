//! The long-lived aggregate store and the single merge entry point.
//!
//! An `AdaptiveAnalytics` value is owned by the enclosing application
//! state and mutated exactly once per completed session, by
//! `merge_session`. The merge is specified pointwise against ghost models
//! (`KeyRec`, `BigramRec`): which keys exist afterwards, and what each
//! maps to. Counters accumulate with saturation, so a merge can never
//! overflow or fail.

use vstd::prelude::*;

use crate::analytics::{spec_mastery, BigramStats, CharPair, KeyStats, MasteryLevel};
use crate::analyzer::{empty_perf, perf_view, perf_view_fn, wf_bigram_perf, wf_key_perf, KeyPerformance, PerfModel, SessionAnalysis};
use crate::assoc::{assoc_map, find_char_key, keys_unique, lemma_assoc_at, lemma_assoc_contains, lemma_assoc_push, lemma_assoc_update};

verus! {

/// `n`, saturated to fit a `u64`.
pub open spec fn sat64(n: nat) -> u64 {
    if n > u64::MAX {
        u64::MAX
    } else {
        n as u64
    }
}

/// Saturating addition on `u64`.
pub fn sat_add(a: u64, b: u64) -> (r: u64)
    ensures
        r == sat64(a as nat + b as nat),
{
    if a > u64::MAX - b {
        u64::MAX
    } else {
        a + b
    }
}

/// Sum of a sequence of samples, as an unbounded natural.
pub open spec fn sum_seq(s: Seq<u64>) -> nat
    decreases s.len(),
{
    if s.len() == 0 {
        0
    } else {
        sum_seq(s.drop_last()) + s.last() as nat
    }
}

/// Saturating sum of the samples. Saturation commutes with the fold, so
/// the result is the saturated true sum.
fn sum_timings(t: &Vec<u64>) -> (r: u64)
    ensures
        r == sat64(sum_seq(t@)),
{
    let n = t.len();
    let mut acc: u64 = 0;
    for i in 0..n
        invariant
            n == t@.len(),
            acc == sat64(sum_seq(t@.take(i as int))),
    {
        proof {
            assert(t@.take(i + 1).drop_last() =~= t@.take(i as int));
            assert(t@.take(i + 1).last() == t@[i as int]);
        }
        acc = sat_add(acc, t[i]);
    }
    proof {
        assert(t@.take(n as int) =~= t@);
    }
    acc
}

/// The identity view on `u64` values, for `assoc_map`.
pub open spec fn id_u64() -> spec_fn(u64) -> u64 {
    |v: u64| v
}

/// The mathematical content of a `KeyStats`.
pub ghost struct KeyRec {
    pub total: u64,
    pub correct: u64,
    pub errors: u64,
    pub time: u64,
    pub mistypes: Map<char, u64>,
    pub last: Option<u64>,
    pub level: MasteryLevel,
}

pub open spec fn empty_key_rec() -> KeyRec {
    KeyRec {
        total: 0,
        correct: 0,
        errors: 0,
        time: 0,
        mistypes: Map::empty(),
        last: None,
        level: MasteryLevel::Beginner,
    }
}

pub open spec fn ks_view(ks: KeyStats) -> KeyRec {
    KeyRec {
        total: ks.total_attempts,
        correct: ks.correct_attempts,
        errors: ks.error_count,
        time: ks.total_time_ms,
        mistypes: assoc_map(ks.mistype_map@, id_u64()),
        last: ks.last_practiced,
        level: ks.mastery_level,
    }
}

pub open spec fn ks_view_fn() -> spec_fn(KeyStats) -> KeyRec {
    |ks: KeyStats| ks_view(ks)
}

/// The mathematical content of a `BigramStats`.
pub ghost struct BigramRec {
    pub total: u64,
    pub correct: u64,
    pub time: u64,
    pub last: Option<u64>,
}

pub open spec fn empty_bigram_rec() -> BigramRec {
    BigramRec { total: 0, correct: 0, time: 0, last: None }
}

pub open spec fn bs_view(bs: BigramStats) -> BigramRec {
    BigramRec {
        total: bs.total_attempts,
        correct: bs.correct_attempts,
        time: bs.total_time_ms,
        last: bs.last_practiced,
    }
}

pub open spec fn bs_view_fn() -> spec_fn(BigramStats) -> BigramRec {
    |bs: BigramStats| bs_view(bs)
}

/// A `Vec<KeyStats>` as an association list keyed by the tracked character.
pub open spec fn ks_pairs(s: Seq<KeyStats>) -> Seq<(char, KeyStats)> {
    s.map_values(|ks: KeyStats| (ks.key, ks))
}

/// The per-character store as a map from character to record.
pub open spec fn ks_model(s: Seq<KeyStats>) -> Map<char, KeyRec> {
    assoc_map(ks_pairs(s), ks_view_fn())
}

pub open spec fn bs_pairs(s: Seq<BigramStats>) -> Seq<(CharPair, BigramStats)> {
    s.map_values(|bs: BigramStats| (bs.bigram, bs))
}

/// The per-pair store as a map from pair to record.
pub open spec fn bs_model(s: Seq<BigramStats>) -> Map<CharPair, BigramRec> {
    assoc_map(bs_pairs(s), bs_view_fn())
}

/// Folding one session's mistypes into a character's mistype counts:
/// each entry of `errors` increments the count of that character.
pub open spec fn merge_mistypes(m: Map<char, u64>, errors: Seq<char>) -> Map<char, u64>
    decreases errors.len(),
{
    if errors.len() == 0 {
        m
    } else {
        let m1 = merge_mistypes(m, errors.drop_last());
        let e = errors.last();
        let old_count: u64 = if m1.contains_key(e) {
            m1[e]
        } else {
            0
        };
        m1.insert(e, sat64(old_count as nat + 1))
    }
}

/// What one session's delta does to a character record: counters
/// accumulate (saturating), mistype counts fold in, the last-practiced
/// stamp is set to `now`, and the mastery level is re-derived.
pub open spec fn merge_key_rec(r: KeyRec, p: PerfModel, now: u64) -> KeyRec {
    let total = sat64(r.total as nat + p.total);
    let correct = sat64(r.correct as nat + p.correct);
    KeyRec {
        total,
        correct,
        errors: sat64(r.errors as nat + p.errors.len()),
        time: sat64(r.time as nat + sum_seq(p.timings)),
        mistypes: merge_mistypes(r.mistypes, p.errors),
        last: Some(now),
        level: spec_mastery(total as nat, correct as nat),
    }
}

/// What one session's delta does to a pair record.
pub open spec fn merge_bigram_rec(r: BigramRec, p: PerfModel, now: u64) -> BigramRec {
    BigramRec {
        total: sat64(r.total as nat + p.total),
        correct: sat64(r.correct as nat + p.correct),
        time: sat64(r.time as nat + sum_seq(p.timings)),
        last: Some(now),
    }
}

pub open spec fn key_rec_or_empty(base: Map<char, KeyRec>, c: char) -> KeyRec {
    if base.contains_key(c) {
        base[c]
    } else {
        empty_key_rec()
    }
}

pub open spec fn bigram_rec_or_empty(base: Map<CharPair, BigramRec>, k: CharPair) -> BigramRec {
    if base.contains_key(k) {
        base[k]
    } else {
        empty_bigram_rec()
    }
}

/// The full specification of the per-character half of a merge: the keys
/// afterwards are the old keys plus the session's keys, every key the
/// session touched carries the merged record, and every other key is
/// untouched.
pub open spec fn merged_key_model(
    base: Map<char, KeyRec>,
    kp: Map<char, PerfModel>,
    now: u64,
    result: Map<char, KeyRec>,
) -> bool {
    &&& result.dom() == base.dom().union(kp.dom())
    &&& forall|c: char|
        kp.contains_key(c) ==> result[c] == merge_key_rec(key_rec_or_empty(base, c), kp[c], now)
    &&& forall|c: char|
        base.contains_key(c) && !kp.contains_key(c) ==> result[c] == base[c]
}

/// The per-pair half, in the same shape.
pub open spec fn merged_bigram_model(
    base: Map<CharPair, BigramRec>,
    bp: Map<CharPair, PerfModel>,
    now: u64,
    result: Map<CharPair, BigramRec>,
) -> bool {
    &&& result.dom() == base.dom().union(bp.dom())
    &&& forall|k: CharPair|
        bp.contains_key(k) ==> result[k] == merge_bigram_rec(
            bigram_rec_or_empty(base, k),
            bp[k],
            now,
        )
    &&& forall|k: CharPair|
        base.contains_key(k) && !bp.contains_key(k) ==> result[k] == base[k]
}

/// The keys of the session entries the base store does not yet track,
/// among the first `hi`, in encounter order: the merge appends exactly
/// these, in this order, after the existing entries.
pub open spec fn fresh_keys(
    base: Map<char, KeyRec>,
    entries: Seq<(char, KeyPerformance)>,
    hi: int,
) -> Seq<char>
    decreases hi,
{
    if hi <= 0 {
        Seq::empty()
    } else {
        let prev = fresh_keys(base, entries, hi - 1);
        if base.contains_key(entries[hi - 1].0) {
            prev
        } else {
            prev.push(entries[hi - 1].0)
        }
    }
}

/// The per-pair counterpart of `fresh_keys`.
pub open spec fn fresh_pairs(
    base: Map<CharPair, BigramRec>,
    entries: Seq<(CharPair, KeyPerformance)>,
    hi: int,
) -> Seq<CharPair>
    decreases hi,
{
    if hi <= 0 {
        Seq::empty()
    } else {
        let prev = fresh_pairs(base, entries, hi - 1);
        if base.contains_key(entries[hi - 1].0) {
            prev
        } else {
            prev.push(entries[hi - 1].0)
        }
    }
}

/// Merging is deterministic: any two per-character stores that satisfy the
/// merge specification against the same starting store, the same session
/// delta and the same timestamp are equal. Together with
/// `lemma_merge_bigrams_deterministic`, merging one session into two equal
/// fresh aggregates yields aggregates with equal contents.
pub proof fn lemma_merge_deterministic(
    base: Map<char, KeyRec>,
    kp: Map<char, PerfModel>,
    now: u64,
    r1: Map<char, KeyRec>,
    r2: Map<char, KeyRec>,
)
    requires
        merged_key_model(base, kp, now, r1),
        merged_key_model(base, kp, now, r2),
    ensures
        r1 == r2,
{
    assert forall|c: char| r1.dom().contains(c) implies r1[c] == r2[c] by {
        if !kp.contains_key(c) {
            assert(base.contains_key(c));
        }
    }
    assert(r1 =~= r2);
}

/// The per-pair counterpart of `lemma_merge_deterministic`.
pub proof fn lemma_merge_bigrams_deterministic(
    base: Map<CharPair, BigramRec>,
    bp: Map<CharPair, PerfModel>,
    now: u64,
    r1: Map<CharPair, BigramRec>,
    r2: Map<CharPair, BigramRec>,
)
    requires
        merged_bigram_model(base, bp, now, r1),
        merged_bigram_model(base, bp, now, r2),
    ensures
        r1 == r2,
{
    assert forall|k: CharPair| r1.dom().contains(k) implies r1[k] == r2[k] by {
        if !bp.contains_key(k) {
            assert(base.contains_key(k));
        }
    }
    assert(r1 =~= r2);
}

/// Two well-formed per-character stores with the same key order and the
/// same map model agree entry by entry: same length, same tracked
/// character at every position, and the same record content. Together
/// with `lemma_merge_deterministic` and the merge's key-order clause,
/// merging one session into two aggregates with equal stores determines
/// every entry of the result; only the internal order of each record's
/// mistype list is left open by the merge specification.
pub proof fn lemma_store_entries_determined(s1: Seq<KeyStats>, s2: Seq<KeyStats>)
    requires
        keys_unique(ks_pairs(s1)),
        keys_unique(ks_pairs(s2)),
        crate::assoc::assoc_keys(ks_pairs(s1)) == crate::assoc::assoc_keys(ks_pairs(s2)),
        ks_model(s1) == ks_model(s2),
    ensures
        s1.len() == s2.len(),
        forall|i: int| 0 <= i < s1.len() ==> (#[trigger] s1[i]).key == s2[i].key,
        forall|i: int| 0 <= i < s1.len() ==> ks_view(#[trigger] s1[i]) == ks_view(s2[i]),
{
    assert(crate::assoc::assoc_keys(ks_pairs(s1)).len() == s1.len());
    assert(crate::assoc::assoc_keys(ks_pairs(s2)).len() == s2.len());
    assert forall|i: int| 0 <= i < s1.len() implies (#[trigger] s1[i]).key == s2[i].key by {
        assert(crate::assoc::assoc_keys(ks_pairs(s1))[i] == s1[i].key);
        assert(crate::assoc::assoc_keys(ks_pairs(s2))[i] == s2[i].key);
    }
    assert forall|i: int| 0 <= i < s1.len() implies ks_view(#[trigger] s1[i]) == ks_view(s2[i]) by {
        lemma_assoc_at(ks_pairs(s1), ks_view_fn(), i);
        lemma_assoc_at(ks_pairs(s2), ks_view_fn(), i);
        assert(s1[i].key == s2[i].key);
    }
}

/// The per-pair counterpart of `lemma_store_entries_determined`; here the
/// record content pins the whole entry, as pair records hold no list.
pub proof fn lemma_pair_entries_determined(s1: Seq<BigramStats>, s2: Seq<BigramStats>)
    requires
        keys_unique(bs_pairs(s1)),
        keys_unique(bs_pairs(s2)),
        crate::assoc::assoc_keys(bs_pairs(s1)) == crate::assoc::assoc_keys(bs_pairs(s2)),
        bs_model(s1) == bs_model(s2),
    ensures
        s1.len() == s2.len(),
        forall|i: int| 0 <= i < s1.len() ==> (#[trigger] s1[i]).bigram == s2[i].bigram,
        forall|i: int| 0 <= i < s1.len() ==> bs_view(#[trigger] s1[i]) == bs_view(s2[i]),
{
    assert(crate::assoc::assoc_keys(bs_pairs(s1)).len() == s1.len());
    assert(crate::assoc::assoc_keys(bs_pairs(s2)).len() == s2.len());
    assert forall|i: int| 0 <= i < s1.len() implies (#[trigger] s1[i]).bigram == s2[i].bigram by {
        assert(crate::assoc::assoc_keys(bs_pairs(s1))[i] == s1[i].bigram);
        assert(crate::assoc::assoc_keys(bs_pairs(s2))[i] == s2[i].bigram);
    }
    assert forall|i: int| 0 <= i < s1.len() implies bs_view(#[trigger] s1[i]) == bs_view(s2[i]) by {
        lemma_assoc_at(bs_pairs(s1), bs_view_fn(), i);
        lemma_assoc_at(bs_pairs(s2), bs_view_fn(), i);
        assert(s1[i].bigram == s2[i].bigram);
    }
}

/// Fold one session's mistyped characters into a mistype count list.
fn merge_mistypes_into(m: &mut Vec<(char, u64)>, errors: &Vec<char>)
    requires
        keys_unique(old(m)@),
    ensures
        keys_unique(final(m)@),
        assoc_map(final(m)@, id_u64()) == merge_mistypes(assoc_map(old(m)@, id_u64()), errors@),
{
    let n = errors.len();
    for i in 0..n
        invariant
            n == errors@.len(),
            keys_unique(m@),
            assoc_map(m@, id_u64()) == merge_mistypes(
                assoc_map(old(m)@, id_u64()),
                errors@.take(i as int),
            ),
    {
        proof {
            assert(errors@.take(i + 1).drop_last() =~= errors@.take(i as int));
            assert(errors@.take(i + 1).last() == errors@[i as int]);
        }
        let e = errors[i];
        let ghost pre = m@;
        proof {
            lemma_assoc_contains(pre, id_u64(), e);
        }
        match find_char_key(m, e) {
            Some(j) => {
                proof {
                    lemma_assoc_at(pre, id_u64(), j as int);
                }
                let bumped = sat_add(m[j].1, 1);
                m[j] = (e, bumped);
                proof {
                    lemma_assoc_update(pre, id_u64(), j as int, bumped);
                }
            },
            None => {
                proof {
                    lemma_assoc_push(pre, id_u64(), e, 1u64);
                }
                m.push((e, 1));
            },
        }
    }
    proof {
        assert(errors@.take(n as int) =~= errors@);
    }
}

/// Merge one character's session delta into its long-lived record.
fn merge_into_key_stats(ks: &mut KeyStats, perf: &KeyPerformance, now_ms: u64)
    requires
        old(ks).wf(),
        wf_key_perf(perf_view(*perf)),
    ensures
        final(ks).wf(),
        final(ks).key == old(ks).key,
        ks_view(*final(ks)) == merge_key_rec(ks_view(*old(ks)), perf_view(*perf), now_ms),
{
    ks.total_attempts = sat_add(ks.total_attempts, perf.total_attempts);
    ks.correct_attempts = sat_add(ks.correct_attempts, perf.correct_attempts);
    let error_len = perf.errors.len();
    ks.error_count = sat_add(ks.error_count, error_len as u64);
    let time_sum = sum_timings(&perf.timings);
    ks.total_time_ms = sat_add(ks.total_time_ms, time_sum);
    merge_mistypes_into(&mut ks.mistype_map, &perf.errors);
    ks.last_practiced = Some(now_ms);
    ks.update_mastery_level();
    proof {
        // saturation preserves the orderings the well-formedness needs
        assert(final(ks).correct_attempts <= final(ks).total_attempts);
        assert(final(ks).error_count <= final(ks).total_attempts);
        // saturating the saturated partial sum is saturating the true sum
        assert(sat64(old(ks).total_time_ms as nat + sat64(sum_seq(perf.timings@)) as nat)
            == sat64(old(ks).total_time_ms as nat + sum_seq(perf.timings@)));
    }
}

/// Merge one pair's session delta into its long-lived record.
fn merge_into_bigram_stats(bs: &mut BigramStats, perf: &KeyPerformance, now_ms: u64)
    requires
        old(bs).wf(),
        wf_bigram_perf(perf_view(*perf)),
    ensures
        final(bs).wf(),
        final(bs).bigram == old(bs).bigram,
        bs_view(*final(bs)) == merge_bigram_rec(bs_view(*old(bs)), perf_view(*perf), now_ms),
{
    bs.total_attempts = sat_add(bs.total_attempts, perf.total_attempts);
    bs.correct_attempts = sat_add(bs.correct_attempts, perf.correct_attempts);
    let time_sum = sum_timings(&perf.timings);
    bs.total_time_ms = sat_add(bs.total_time_ms, time_sum);
    bs.last_practiced = Some(now_ms);
    proof {
        assert(sat64(old(bs).total_time_ms as nat + sat64(sum_seq(perf.timings@)) as nat)
            == sat64(old(bs).total_time_ms as nat + sum_seq(perf.timings@)));
    }
}

/// One line of the ordered session log kept inside the aggregate.
/// `wpm` and `accuracy` are in hundredths; `duration_secs` in seconds.
#[derive(Debug, Clone, PartialEq)]
pub struct SessionAnalytics {
    /// Clock reading when the session was merged, in ms.
    pub timestamp: u64,
    pub lesson_type: String,
    pub wpm: u64,
    pub accuracy: u64,
    pub duration_secs: u64,
    pub weak_keys: Vec<char>,
    pub improved_keys: Vec<char>,
}

/// The complete long-lived aggregate: one record per character ever typed,
/// one per pair, the ordered session log, and two running counters.
#[derive(Debug, PartialEq)]
pub struct AdaptiveAnalytics {
    pub key_stats: Vec<KeyStats>,
    pub bigram_stats: Vec<BigramStats>,
    pub session_history: Vec<SessionAnalytics>,
    pub total_sessions: u64,
    pub total_keystrokes: u64,
}

impl AdaptiveAnalytics {
    /// Records are keyed uniquely and internally consistent.
    pub open spec fn wf(&self) -> bool {
        &&& keys_unique(ks_pairs(self.key_stats@))
        &&& forall|i: int| 0 <= i < self.key_stats@.len() ==> (#[trigger] self.key_stats@[i]).wf()
        &&& keys_unique(bs_pairs(self.bigram_stats@))
        &&& forall|i: int|
            0 <= i < self.bigram_stats@.len() ==> (#[trigger] self.bigram_stats@[i]).wf()
    }

    /// The empty aggregate.
    pub fn new() -> (r: Self)
        ensures
            r.wf(),
            r.key_stats@ =~= Seq::<KeyStats>::empty(),
            r.bigram_stats@ =~= Seq::<BigramStats>::empty(),
            r.session_history@ =~= Seq::<SessionAnalytics>::empty(),
            r.total_sessions == 0,
            r.total_keystrokes == 0,
            ks_model(r.key_stats@) == Map::<char, KeyRec>::empty(),
            bs_model(r.bigram_stats@) == Map::<CharPair, BigramRec>::empty(),
    {
        let r = AdaptiveAnalytics {
            key_stats: Vec::new(),
            bigram_stats: Vec::new(),
            session_history: Vec::new(),
            total_sessions: 0,
            total_keystrokes: 0,
        };
        proof {
            assert(ks_pairs(r.key_stats@) =~= Seq::<(char, KeyStats)>::empty());
            assert(bs_pairs(r.bigram_stats@) =~= Seq::<(CharPair, BigramStats)>::empty());
        }
        r
    }

    /// Decide well-formedness at run time: distinct tracked characters
    /// and pairs, and internally consistent counters in every record.
    /// What comes back from persistence is held to this before any query
    /// or merge relies on it; a corrupt store is then discarded.
    pub fn check_well_formed(&self) -> (r: bool)
        ensures
            r == self.wf(),
    {
        let n = self.key_stats.len();
        for i in 0..n
            invariant
                n == self.key_stats@.len(),
                forall|a: int, b: int|
                    0 <= a < b < n && a < i ==> (#[trigger] self.key_stats@[a]).key != (
                    #[trigger] self.key_stats@[b]).key,
        {
            for j in (i + 1)..n
                invariant
                    n == self.key_stats@.len(),
                    i < n,
                    forall|a: int, b: int|
                        0 <= a < b < n && a < i ==> (#[trigger] self.key_stats@[a]).key != (
                        #[trigger] self.key_stats@[b]).key,
                    forall|b: int|
                        i < b < j ==> (#[trigger] self.key_stats@[b]).key
                            != self.key_stats@[i as int].key,
            {
                if self.key_stats[i].key == self.key_stats[j].key {
                    proof {
                        assert(ks_pairs(self.key_stats@)[i as int].0 == ks_pairs(
                            self.key_stats@,
                        )[j as int].0);
                    }
                    return false;
                }
            }
        }
        proof {
            assert forall|a: int, b: int|
                0 <= a < b < ks_pairs(self.key_stats@).len() implies ks_pairs(
                self.key_stats@,
            )[a].0 != ks_pairs(self.key_stats@)[b].0 by {
                assert(self.key_stats@[a].key != self.key_stats@[b].key);
            }
        }

        for i in 0..n
            invariant
                n == self.key_stats@.len(),
                keys_unique(ks_pairs(self.key_stats@)),
                forall|a: int| 0 <= a < i ==> (#[trigger] self.key_stats@[a]).wf(),
        {
            let ks = &self.key_stats[i];
            if ks.correct_attempts > ks.total_attempts || ks.error_count > ks.total_attempts {
                return false;
            }
            let m = ks.mistype_map.len();
            for a in 0..m
                invariant
                    n == self.key_stats@.len(),
                    i < n,
                    m == self.key_stats@[i as int].mistype_map@.len(),
                    keys_unique(ks_pairs(self.key_stats@)),
                    forall|a2: int| 0 <= a2 < i ==> (#[trigger] self.key_stats@[a2]).wf(),
                    forall|a2: int, b2: int|
                        0 <= a2 < b2 < m && a2 < a ==> (
                        #[trigger] self.key_stats@[i as int].mistype_map@[a2]).0 != (
                        #[trigger] self.key_stats@[i as int].mistype_map@[b2]).0,
            {
                for b in (a + 1)..m
                    invariant
                        n == self.key_stats@.len(),
                        i < n,
                        a < m,
                        m == self.key_stats@[i as int].mistype_map@.len(),
                        keys_unique(ks_pairs(self.key_stats@)),
                        forall|a2: int| 0 <= a2 < i ==> (#[trigger] self.key_stats@[a2]).wf(),
                        forall|a2: int, b2: int|
                            0 <= a2 < b2 < m && a2 < a ==> (
                            #[trigger] self.key_stats@[i as int].mistype_map@[a2]).0 != (
                            #[trigger] self.key_stats@[i as int].mistype_map@[b2]).0,
                        forall|b2: int|
                            a < b2 < b ==> (
                            #[trigger] self.key_stats@[i as int].mistype_map@[b2]).0
                                != self.key_stats@[i as int].mistype_map@[a as int].0,
                {
                    if self.key_stats[i].mistype_map[a].0 == self.key_stats[i].mistype_map[b].0 {
                        return false;
                    }
                }
            }
        }

        let nb = self.bigram_stats.len();
        for i in 0..nb
            invariant
                nb == self.bigram_stats@.len(),
                keys_unique(ks_pairs(self.key_stats@)),
                forall|a: int| 0 <= a < self.key_stats@.len() ==> (#[trigger] self.key_stats@[a]).wf(),
                forall|a: int, b: int|
                    0 <= a < b < nb && a < i ==> (#[trigger] self.bigram_stats@[a]).bigram != (
                    #[trigger] self.bigram_stats@[b]).bigram,
                forall|a: int| 0 <= a < i ==> (#[trigger] self.bigram_stats@[a]).wf(),
        {
            let bs = &self.bigram_stats[i];
            if bs.correct_attempts > bs.total_attempts {
                return false;
            }
            for j in (i + 1)..nb
                invariant
                    nb == self.bigram_stats@.len(),
                    i < nb,
                    keys_unique(ks_pairs(self.key_stats@)),
                    forall|a: int|
                        0 <= a < self.key_stats@.len() ==> (#[trigger] self.key_stats@[a]).wf(),
                    forall|a: int, b: int|
                        0 <= a < b < nb && a < i ==> (#[trigger] self.bigram_stats@[a]).bigram != (
                        #[trigger] self.bigram_stats@[b]).bigram,
                    forall|a: int| 0 <= a <= i ==> (#[trigger] self.bigram_stats@[a]).wf(),
                    forall|b: int|
                        i < b < j ==> (#[trigger] self.bigram_stats@[b]).bigram
                            != self.bigram_stats@[i as int].bigram,
            {
                if self.bigram_stats[i].bigram == self.bigram_stats[j].bigram {
                    proof {
                        assert(bs_pairs(self.bigram_stats@)[i as int].0 == bs_pairs(
                            self.bigram_stats@,
                        )[j as int].0);
                    }
                    return false;
                }
            }
        }
        proof {
            assert forall|a: int, b: int|
                0 <= a < b < bs_pairs(self.bigram_stats@).len() implies bs_pairs(
                self.bigram_stats@,
            )[a].0 != bs_pairs(self.bigram_stats@)[b].0 by {
                assert(self.bigram_stats@[a].bigram != self.bigram_stats@[b].bigram);
            }
        }
        true
    }

    /// The single mutation of the store: fold one completed session's
    /// analysis in, stamp every touched record with `now_ms`, and bump the
    /// session and keystroke counters.
    pub fn merge_session(
        &mut self,
        analysis: &SessionAnalysis,
        keystrokes: usize,
        now_ms: u64,
    )
        requires
            old(self).wf(),
            analysis.wf(),
        ensures
            final(self).wf(),
            merged_key_model(
                ks_model(old(self).key_stats@),
                assoc_map(analysis.key_performance@, perf_view_fn()),
                now_ms,
                ks_model(final(self).key_stats@),
            ),
            merged_bigram_model(
                bs_model(old(self).bigram_stats@),
                assoc_map(analysis.bigram_performance@, perf_view_fn()),
                now_ms,
                bs_model(final(self).bigram_stats@),
            ),
            final(self).total_sessions == sat64(old(self).total_sessions as nat + 1),
            final(self).total_keystrokes == sat64(
                old(self).total_keystrokes as nat + keystrokes as nat,
            ),
            final(self).session_history@ == old(self).session_history@,
            crate::assoc::assoc_keys(ks_pairs(final(self).key_stats@)) == crate::assoc::assoc_keys(
                ks_pairs(old(self).key_stats@),
            ) + fresh_keys(
                ks_model(old(self).key_stats@),
                analysis.key_performance@,
                analysis.key_performance@.len() as int,
            ),
            crate::assoc::assoc_keys(bs_pairs(final(self).bigram_stats@))
                == crate::assoc::assoc_keys(bs_pairs(old(self).bigram_stats@)) + fresh_pairs(
                bs_model(old(self).bigram_stats@),
                analysis.bigram_performance@,
                analysis.bigram_performance@.len() as int,
            ),
    {
        proof {
            assert(crate::assoc::assoc_keys(ks_pairs(self.key_stats@)) =~= crate::assoc::assoc_keys(
                ks_pairs(old(self).key_stats@),
            ) + fresh_keys(ks_model(old(self).key_stats@), analysis.key_performance@, 0));
            assert(crate::assoc::assoc_keys(bs_pairs(self.bigram_stats@))
                =~= crate::assoc::assoc_keys(bs_pairs(old(self).bigram_stats@)) + fresh_pairs(
                bs_model(old(self).bigram_stats@),
                analysis.bigram_performance@,
                0,
            ));
        }
        let ghost base = ks_model(old(self).key_stats@);
        let ghost kp = assoc_map(analysis.key_performance@, perf_view_fn());

        let key_entries = analysis.key_performance.len();
        for idx in 0..key_entries
            invariant
                key_entries == analysis.key_performance@.len(),
                analysis.wf(),
                base == ks_model(old(self).key_stats@),
                kp == assoc_map(analysis.key_performance@, perf_view_fn()),
                keys_unique(ks_pairs(self.key_stats@)),
                forall|i: int|
                    0 <= i < self.key_stats@.len() ==> (#[trigger] self.key_stats@[i]).wf(),
                self.bigram_stats == old(self).bigram_stats,
                self.session_history == old(self).session_history,
                self.total_sessions == old(self).total_sessions,
                self.total_keystrokes == old(self).total_keystrokes,
                forall|c: char|
                    #[trigger] ks_model(self.key_stats@).contains_key(c) <==> (base.contains_key(c)
                        || exists|j: int|
                        0 <= j < idx && analysis.key_performance@[j].0 == c),
                forall|j: int|
                    0 <= j < idx ==> ks_model(self.key_stats@)[analysis.key_performance@[j].0]
                        == merge_key_rec(
                        key_rec_or_empty(base, analysis.key_performance@[j].0),
                        perf_view(analysis.key_performance@[j].1),
                        now_ms,
                    ),
                forall|c: char|
                    base.contains_key(c) && (forall|j: int|
                        0 <= j < idx ==> analysis.key_performance@[j].0 != c)
                        ==> #[trigger] ks_model(self.key_stats@)[c] == base[c],
                crate::assoc::assoc_keys(ks_pairs(self.key_stats@)) == crate::assoc::assoc_keys(
                    ks_pairs(old(self).key_stats@),
                ) + fresh_keys(base, analysis.key_performance@, idx as int),
        {
            let c = analysis.key_performance[idx].0;
            let ghost pre = self.key_stats@;
            proof {
                lemma_assoc_contains(ks_pairs(pre), ks_view_fn(), c);
            }
            let found = find_key_stats(&self.key_stats, c);
            let j = match found {
                Some(j) => j,
                None => {
                    let fresh = KeyStats::new(c);
                    proof {
                        lemma_assoc_push(ks_pairs(pre), ks_view_fn(), c, fresh);
                        assert(ks_pairs(pre.push(fresh)) =~= ks_pairs(pre).push((c, fresh)));
                        assert(ks_view(fresh) == empty_key_rec());
                    }
                    self.key_stats.push(fresh);
                    self.key_stats.len() - 1
                },
            };
            let ghost mid = self.key_stats@;
            proof {
                lemma_assoc_at(ks_pairs(mid), ks_view_fn(), j as int);
                if found is None {
                    lemma_assoc_contains(ks_pairs(pre), ks_view_fn(), c);
                }
            }
            let entry = &mut self.key_stats[j];
            merge_into_key_stats(entry, &analysis.key_performance[idx].1, now_ms);
            proof {
                assert(self.key_stats@ == mid.update(j as int, self.key_stats@[j as int]));
                assert(ks_pairs(self.key_stats@) =~= ks_pairs(mid).update(
                    j as int,
                    (c, self.key_stats@[j as int]),
                ));
                lemma_assoc_update(ks_pairs(mid), ks_view_fn(), j as int, self.key_stats@[j as int]);
                // the key being merged was not touched by earlier iterations
                assert forall|jj: int| 0 <= jj < idx implies analysis.key_performance@[jj].0 != c by {
                    assert(analysis.key_performance@[jj].0 != analysis.key_performance@[idx as int].0);
                }
                // the new entry order: an unseen key is appended, a known
                // key leaves the order alone
                if found is None {
                    assert(!base.contains_key(c));
                    assert(crate::assoc::assoc_keys(ks_pairs(self.key_stats@))
                        =~= crate::assoc::assoc_keys(ks_pairs(old(self).key_stats@)) + fresh_keys(
                        base,
                        analysis.key_performance@,
                        idx + 1,
                    ));
                } else {
                    assert(ks_model(pre).contains_key(c)) by {
                        let ji = choose|ji: int| 0 <= ji < pre.len() && pre[ji].key == c;
                        assert(ks_pairs(pre)[ji].0 == c);
                    }
                    assert(base.contains_key(c));
                    assert(crate::assoc::assoc_keys(ks_pairs(self.key_stats@))
                        =~= crate::assoc::assoc_keys(ks_pairs(old(self).key_stats@)) + fresh_keys(
                        base,
                        analysis.key_performance@,
                        idx + 1,
                    ));
                }
            }
        }

        proof {
            // translate the per-index invariant into the map-level contract
            assert forall|c: char| kp.contains_key(c) implies ks_model(self.key_stats@)[c]
                == merge_key_rec(key_rec_or_empty(base, c), kp[c], now_ms) by {
                lemma_assoc_contains(analysis.key_performance@, perf_view_fn(), c);
                let j = choose|j: int|
                    0 <= j < analysis.key_performance@.len() && analysis.key_performance@[j].0 == c;
                lemma_assoc_at(analysis.key_performance@, perf_view_fn(), j);
            }
            assert forall|c: char| #[trigger] ks_model(self.key_stats@).contains_key(c) implies
                base.dom().union(kp.dom()).contains(c) by {
                if !base.contains_key(c) {
                    let j = choose|j: int|
                        0 <= j < analysis.key_performance@.len()
                            && analysis.key_performance@[j].0 == c;
                    lemma_assoc_contains(analysis.key_performance@, perf_view_fn(), c);
                }
            }
            assert forall|c: char| base.dom().union(kp.dom()).contains(c) implies
                ks_model(self.key_stats@).contains_key(c) by {
                if kp.contains_key(c) {
                    lemma_assoc_contains(analysis.key_performance@, perf_view_fn(), c);
                }
            }
            assert(ks_model(self.key_stats@).dom() =~= base.dom().union(kp.dom()));
            assert forall|c: char|
                base.contains_key(c) && !kp.contains_key(c) implies ks_model(self.key_stats@)[c]
                == base[c] by {
                lemma_assoc_contains(analysis.key_performance@, perf_view_fn(), c);
            }
        }

        let ghost bbase = bs_model(old(self).bigram_stats@);
        let ghost bp = assoc_map(analysis.bigram_performance@, perf_view_fn());

        let bigram_entries = analysis.bigram_performance.len();
        for idx in 0..bigram_entries
            invariant
                bigram_entries == analysis.bigram_performance@.len(),
                analysis.wf(),
                bbase == bs_model(old(self).bigram_stats@),
                bp == assoc_map(analysis.bigram_performance@, perf_view_fn()),
                keys_unique(bs_pairs(self.bigram_stats@)),
                forall|i: int|
                    0 <= i < self.bigram_stats@.len() ==> (#[trigger] self.bigram_stats@[i]).wf(),
                keys_unique(ks_pairs(self.key_stats@)),
                forall|i: int|
                    0 <= i < self.key_stats@.len() ==> (#[trigger] self.key_stats@[i]).wf(),
                merged_key_model(base, kp, now_ms, ks_model(self.key_stats@)),
                self.session_history == old(self).session_history,
                self.total_sessions == old(self).total_sessions,
                self.total_keystrokes == old(self).total_keystrokes,
                forall|k: CharPair|
                    #[trigger] bs_model(self.bigram_stats@).contains_key(k) <==> (
                    bbase.contains_key(k) || exists|j: int|
                        0 <= j < idx && analysis.bigram_performance@[j].0 == k),
                forall|j: int|
                    0 <= j < idx ==> bs_model(self.bigram_stats@)[analysis.bigram_performance@[j].0]
                        == merge_bigram_rec(
                        bigram_rec_or_empty(bbase, analysis.bigram_performance@[j].0),
                        perf_view(analysis.bigram_performance@[j].1),
                        now_ms,
                    ),
                forall|k: CharPair|
                    bbase.contains_key(k) && (forall|j: int|
                        0 <= j < idx ==> analysis.bigram_performance@[j].0 != k)
                        ==> #[trigger] bs_model(self.bigram_stats@)[k] == bbase[k],
                crate::assoc::assoc_keys(ks_pairs(self.key_stats@)) == crate::assoc::assoc_keys(
                    ks_pairs(old(self).key_stats@),
                ) + fresh_keys(
                    base,
                    analysis.key_performance@,
                    analysis.key_performance@.len() as int,
                ),
                crate::assoc::assoc_keys(bs_pairs(self.bigram_stats@)) == crate::assoc::assoc_keys(
                    bs_pairs(old(self).bigram_stats@),
                ) + fresh_pairs(bbase, analysis.bigram_performance@, idx as int),
        {
            let k = analysis.bigram_performance[idx].0;
            let ghost pre = self.bigram_stats@;
            proof {
                lemma_assoc_contains(bs_pairs(pre), bs_view_fn(), k);
            }
            let found = find_bigram_stats(&self.bigram_stats, k);
            let j = match found {
                Some(j) => j,
                None => {
                    let fresh = BigramStats::new(k);
                    proof {
                        lemma_assoc_push(bs_pairs(pre), bs_view_fn(), k, fresh);
                        assert(bs_pairs(pre.push(fresh)) =~= bs_pairs(pre).push((k, fresh)));
                        assert(bs_view(fresh) == empty_bigram_rec());
                    }
                    self.bigram_stats.push(fresh);
                    self.bigram_stats.len() - 1
                },
            };
            let ghost mid = self.bigram_stats@;
            proof {
                lemma_assoc_at(bs_pairs(mid), bs_view_fn(), j as int);
            }
            let entry = &mut self.bigram_stats[j];
            merge_into_bigram_stats(entry, &analysis.bigram_performance[idx].1, now_ms);
            proof {
                assert(self.bigram_stats@ == mid.update(j as int, self.bigram_stats@[j as int]));
                assert(bs_pairs(self.bigram_stats@) =~= bs_pairs(mid).update(
                    j as int,
                    (k, self.bigram_stats@[j as int]),
                ));
                lemma_assoc_update(
                    bs_pairs(mid),
                    bs_view_fn(),
                    j as int,
                    self.bigram_stats@[j as int],
                );
                assert forall|jj: int| 0 <= jj < idx implies analysis.bigram_performance@[jj].0 != k
                    by {
                    assert(analysis.bigram_performance@[jj].0
                        != analysis.bigram_performance@[idx as int].0);
                }
                // the new entry order: an unseen pair is appended, a known
                // pair leaves the order alone
                if found is None {
                    assert(!bbase.contains_key(k));
                    assert(crate::assoc::assoc_keys(bs_pairs(self.bigram_stats@))
                        =~= crate::assoc::assoc_keys(bs_pairs(old(self).bigram_stats@))
                        + fresh_pairs(bbase, analysis.bigram_performance@, idx + 1));
                } else {
                    assert(bs_model(pre).contains_key(k)) by {
                        let ji = choose|ji: int| 0 <= ji < pre.len() && pre[ji].bigram == k;
                        assert(bs_pairs(pre)[ji].0 == k);
                    }
                    assert(bbase.contains_key(k));
                    assert(crate::assoc::assoc_keys(bs_pairs(self.bigram_stats@))
                        =~= crate::assoc::assoc_keys(bs_pairs(old(self).bigram_stats@))
                        + fresh_pairs(bbase, analysis.bigram_performance@, idx + 1));
                }
            }
        }

        proof {
            assert forall|k: CharPair| bp.contains_key(k) implies bs_model(self.bigram_stats@)[k]
                == merge_bigram_rec(bigram_rec_or_empty(bbase, k), bp[k], now_ms) by {
                lemma_assoc_contains(analysis.bigram_performance@, perf_view_fn(), k);
                let j = choose|j: int|
                    0 <= j < analysis.bigram_performance@.len()
                        && analysis.bigram_performance@[j].0 == k;
                lemma_assoc_at(analysis.bigram_performance@, perf_view_fn(), j);
            }
            assert forall|k: CharPair| #[trigger] bs_model(self.bigram_stats@).contains_key(k)
                implies bbase.dom().union(bp.dom()).contains(k) by {
                if !bbase.contains_key(k) {
                    lemma_assoc_contains(analysis.bigram_performance@, perf_view_fn(), k);
                }
            }
            assert forall|k: CharPair| bbase.dom().union(bp.dom()).contains(k) implies
                bs_model(self.bigram_stats@).contains_key(k) by {
                if bp.contains_key(k) {
                    lemma_assoc_contains(analysis.bigram_performance@, perf_view_fn(), k);
                }
            }
            assert(bs_model(self.bigram_stats@).dom() =~= bbase.dom().union(bp.dom()));
            assert forall|k: CharPair|
                bbase.contains_key(k) && !bp.contains_key(k) implies bs_model(
                self.bigram_stats@,
            )[k] == bbase[k] by {
                lemma_assoc_contains(analysis.bigram_performance@, perf_view_fn(), k);
            }
        }

        self.total_sessions = sat_add(self.total_sessions, 1);
        self.total_keystrokes = sat_add(self.total_keystrokes, keystrokes as u64);
    }
}

impl Default for AdaptiveAnalytics {
    /// The empty aggregate.
    fn default() -> (r: Self)
        ensures
            r.wf(),
            r.key_stats@.len() == 0,
            r.bigram_stats@.len() == 0,
            r.session_history@.len() == 0,
            r.total_sessions == 0,
            r.total_keystrokes == 0,
    {
        AdaptiveAnalytics::new()
    }
}

/// One saved session, as handed to the persistence layer.
/// `wpm` and `accuracy` are in hundredths; `duration` in ms.
#[derive(Debug, Clone, PartialEq)]
pub struct SessionRecord {
    /// Caller-supplied wall-clock stamp, e.g. an RFC 3339 string.
    pub timestamp: String,
    pub lesson_type: String,
    pub wpm: u64,
    pub accuracy: u64,
    pub duration: u64,
}

impl SessionRecord {
    pub fn new(lesson_type: String, wpm: u64, accuracy: u64, duration: u64, timestamp: String) -> (
        r: Self)
        ensures
            r.lesson_type@ == lesson_type@,
            r.wpm == wpm,
            r.accuracy == accuracy,
            r.duration == duration,
            r.timestamp@ == timestamp@,
    {
        Self { timestamp, lesson_type, wpm, accuracy, duration }
    }
}

/// Sum of a projection over the session log, as an unbounded natural.
pub open spec fn sum_of(s: Seq<SessionRecord>, f: spec_fn(SessionRecord) -> u64) -> nat
    decreases s.len(),
{
    if s.len() == 0 {
        0
    } else {
        sum_of(s.drop_last(), f) + f(s.last()) as nat
    }
}

/// Saturating sum of a projection over the session log.
fn sum_records(s: &Vec<SessionRecord>, wpm_field: bool) -> (r: u64)
    ensures
        wpm_field ==> r == sat64(sum_of(s@, |rec: SessionRecord| rec.wpm)),
        !wpm_field ==> r == sat64(sum_of(s@, |rec: SessionRecord| rec.accuracy)),
{
    let ghost f = if wpm_field {
        |rec: SessionRecord| rec.wpm
    } else {
        |rec: SessionRecord| rec.accuracy
    };
    let n = s.len();
    let mut acc: u64 = 0;
    for i in 0..n
        invariant
            n == s@.len(),
            f == (if wpm_field {
                |rec: SessionRecord| rec.wpm
            } else {
                |rec: SessionRecord| rec.accuracy
            }),
            acc == sat64(sum_of(s@.take(i as int), f)),
    {
        proof {
            assert(s@.take(i + 1).drop_last() =~= s@.take(i as int));
            assert(s@.take(i + 1).last() == s@[i as int]);
        }
        let v = if wpm_field {
            s[i].wpm
        } else {
            s[i].accuracy
        };
        acc = sat_add(acc, v);
    }
    proof {
        assert(s@.take(n as int) =~= s@);
    }
    acc
}

/// Everything the program persists for one user: the session log and the
/// adaptive aggregate, absent until the first merge.
#[derive(Debug, PartialEq)]
pub struct Stats {
    pub sessions: Vec<SessionRecord>,
    pub adaptive_analytics: Option<AdaptiveAnalytics>,
}

impl Stats {
    pub open spec fn wf(&self) -> bool {
        self.adaptive_analytics matches Some(a) ==> a.wf()
    }

    pub fn new() -> (r: Self)
        ensures
            r.sessions@.len() == 0,
            r.adaptive_analytics is None,
            r.wf(),
    {
        Self { sessions: Vec::new(), adaptive_analytics: None }
    }

    pub fn add_session(&mut self, record: SessionRecord)
        ensures
            final(self).sessions@ == old(self).sessions@.push(record),
            final(self).adaptive_analytics == old(self).adaptive_analytics,
    {
        self.sessions.push(record);
    }

    pub fn session_count(&self) -> (r: usize)
        ensures
            r == self.sessions@.len(),
    {
        self.sessions.len()
    }

    /// Mean speed over the log, in hundredths of a word per minute,
    /// rounded down; 0 with an empty log.
    pub fn average_wpm(&self) -> (r: u64)
        ensures
            self.sessions@.len() == 0 ==> r == 0,
            self.sessions@.len() > 0 ==> r == sat64(
                sum_of(self.sessions@, |rec: SessionRecord| rec.wpm),
            ) / (self.sessions@.len() as u64),
    {
        let n = self.sessions.len();
        if n == 0 {
            return 0;
        }
        let total = sum_records(&self.sessions, true);
        total / (n as u64)
    }

    /// Mean accuracy over the log, in hundredths of a percent, rounded
    /// down; 0 with an empty log.
    pub fn average_accuracy(&self) -> (r: u64)
        ensures
            self.sessions@.len() == 0 ==> r == 0,
            self.sessions@.len() > 0 ==> r == sat64(
                sum_of(self.sessions@, |rec: SessionRecord| rec.accuracy),
            ) / (self.sessions@.len() as u64),
    {
        let n = self.sessions.len();
        if n == 0 {
            return 0;
        }
        let total = sum_records(&self.sessions, false);
        total / (n as u64)
    }

    /// Fold one completed session into the adaptive aggregate, creating
    /// the aggregate on first use. The session log is untouched.
    pub fn update_analytics(
        &mut self,
        session: &crate::types::TypingSession,
        analysis: &SessionAnalysis,
        now_ms: u64,
    )
        requires
            old(self).wf(),
            analysis.wf(),
        ensures
            final(self).wf(),
            final(self).sessions == old(self).sessions,
            final(self).adaptive_analytics matches Some(agg) && {
                let base_ks = match old(self).adaptive_analytics {
                    Some(a) => ks_model(a.key_stats@),
                    None => Map::<char, KeyRec>::empty(),
                };
                let base_bs = match old(self).adaptive_analytics {
                    Some(a) => bs_model(a.bigram_stats@),
                    None => Map::<CharPair, BigramRec>::empty(),
                };
                let base_sessions: u64 = match old(self).adaptive_analytics {
                    Some(a) => a.total_sessions,
                    None => 0u64,
                };
                let base_keystrokes: u64 = match old(self).adaptive_analytics {
                    Some(a) => a.total_keystrokes,
                    None => 0u64,
                };
                &&& merged_key_model(
                    base_ks,
                    assoc_map(analysis.key_performance@, perf_view_fn()),
                    now_ms,
                    ks_model(agg.key_stats@),
                )
                &&& merged_bigram_model(
                    base_bs,
                    assoc_map(analysis.bigram_performance@, perf_view_fn()),
                    now_ms,
                    bs_model(agg.bigram_stats@),
                )
                &&& agg.total_sessions == sat64(base_sessions as nat + 1)
                &&& agg.total_keystrokes == sat64(
                    base_keystrokes as nat + session.inputs@.len(),
                )
                &&& crate::assoc::assoc_keys(ks_pairs(agg.key_stats@)) == (match old(
                    self,
                ).adaptive_analytics {
                    Some(a) => crate::assoc::assoc_keys(ks_pairs(a.key_stats@)),
                    None => Seq::<char>::empty(),
                }) + fresh_keys(
                    base_ks,
                    analysis.key_performance@,
                    analysis.key_performance@.len() as int,
                )
                &&& crate::assoc::assoc_keys(bs_pairs(agg.bigram_stats@)) == (match old(
                    self,
                ).adaptive_analytics {
                    Some(a) => crate::assoc::assoc_keys(bs_pairs(a.bigram_stats@)),
                    None => Seq::<CharPair>::empty(),
                }) + fresh_pairs(
                    base_bs,
                    analysis.bigram_performance@,
                    analysis.bigram_performance@.len() as int,
                )
            },
    {
        let keystrokes = session.inputs.len();
        let mut analytics = match self.adaptive_analytics.take() {
            Some(a) => a,
            None => AdaptiveAnalytics::new(),
        };
        proof {
            if old(self).adaptive_analytics is None {
                assert(crate::assoc::assoc_keys(ks_pairs(analytics.key_stats@))
                    =~= Seq::<char>::empty());
                assert(crate::assoc::assoc_keys(bs_pairs(analytics.bigram_stats@))
                    =~= Seq::<CharPair>::empty());
            }
        }
        analytics.merge_session(analysis, keystrokes, now_ms);
        self.adaptive_analytics = Some(analytics);
    }
}

impl Default for Stats {
    /// An empty log with no aggregate yet.
    fn default() -> (r: Self)
        ensures
            r.sessions@.len() == 0,
            r.adaptive_analytics is None,
            r.wf(),
    {
        Stats::new()
    }
}

/// The adaptive-mode gate: offered once at least 10 sessions and 100
/// keystrokes have been merged.
pub fn should_show_adaptive_mode(stats: &Stats) -> (r: bool)
    ensures
        r == (stats.adaptive_analytics matches Some(a) && a.total_sessions >= 10
            && a.total_keystrokes >= 100),
{
    match &stats.adaptive_analytics {
        Some(analytics) => analytics.total_sessions >= 10 && analytics.total_keystrokes >= 100,
        None => false,
    }
}

/// Index of the record tracking character `c`, if any.
pub fn find_key_stats(v: &Vec<KeyStats>, c: char) -> (r: Option<usize>)
    ensures
        match r {
            Some(i) => i < v@.len() && v@[i as int].key == c,
            None => forall|i: int| 0 <= i < v@.len() ==> v@[i].key != c,
        },
{
    let n = v.len();
    for i in 0..n
        invariant
            n == v@.len(),
            forall|j: int| 0 <= j < i ==> v@[j].key != c,
    {
        if v[i].key == c {
            return Some(i);
        }
    }
    None
}

/// Index of the record tracking pair `k`, if any.
pub fn find_bigram_stats(v: &Vec<BigramStats>, k: CharPair) -> (r: Option<usize>)
    ensures
        match r {
            Some(i) => i < v@.len() && v@[i as int].bigram == k,
            None => forall|i: int| 0 <= i < v@.len() ==> v@[i].bigram != k,
        },
{
    let n = v.len();
    for i in 0..n
        invariant
            n == v@.len(),
            forall|j: int| 0 <= j < i ==> v@[j].bigram != k,
    {
        if v[i].bigram == k {
            return Some(i);
        }
    }
    None
}

} // verus!
