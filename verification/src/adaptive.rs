//! Weakness detection: the worst-performing and slowest characters and
//! pairs in the aggregate.
//!
//! Accuracy and error-rate comparisons are exact rational comparisons,
//! written as cross-multiplications, so no floating point is involved.

use vstd::prelude::*;

use crate::analytics::{BigramStats, CharPair, KeyStats};
use crate::stats::AdaptiveAnalytics;

verus! {

/// A character is weak under `threshold` (a whole percentage) when it has
/// enough data and its accuracy lies strictly below the threshold.
pub open spec fn weak_eligible(ks: KeyStats, threshold: u64) -> bool {
    ks.total_attempts >= 10 && (ks.correct_attempts as nat) * 100 < (threshold as nat) * (
    ks.total_attempts as nat)
}

/// A character qualifies for the latency ranking once 5 keystrokes on it
/// were correct.
pub open spec fn slow_eligible(ks: KeyStats) -> bool {
    ks.correct_attempts >= 5
}

/// A pair is weak when it has at least 5 attempts and its accuracy lies
/// strictly below 85%.
pub open spec fn weak_bigram_eligible(bs: BigramStats) -> bool {
    bs.total_attempts >= 5 && (bs.correct_attempts as nat) * 100 < 85 * (bs.total_attempts as nat)
}

/// `a` ranks at least as high as `b`: descending order compares the
/// rationals `a.1/a.2 >= b.1/b.2`, ascending order the reverse.
pub open spec fn ranked_before<K>(a: (K, u64, u64), b: (K, u64, u64), descending: bool) -> bool {
    if descending {
        (a.1 as nat) * (b.2 as nat) >= (b.1 as nat) * (a.2 as nat)
    } else {
        (a.1 as nat) * (b.2 as nat) <= (b.1 as nat) * (a.2 as nat)
    }
}

/// The entry of `s` tracking character `c` (meaningful when keys are
/// unique and some entry tracks `c`).
pub open spec fn ks_at(s: Seq<KeyStats>, c: char) -> KeyStats {
    s[choose|i: int| 0 <= i < s.len() && s[i].key == c]
}

pub open spec fn ks_keys_unique(s: Seq<KeyStats>) -> bool {
    forall|i: int, j: int| 0 <= i < j < s.len() ==> s[i].key != s[j].key
}

/// With unique keys, `ks_at` agrees with any entry that tracks `c`.
pub proof fn lemma_ks_at(s: Seq<KeyStats>, i: int)
    requires
        ks_keys_unique(s),
        0 <= i < s.len(),
    ensures
        ks_at(s, s[i].key) == s[i],
{
    let c = s[i].key;
    let j = choose|j: int| 0 <= j < s.len() && s[j].key == c;
    assert(0 <= j < s.len() && s[j].key == c);
}

/// The tracked entry of `c1` has an error rate at least that of `c2`'s.
pub open spec fn error_rate_geq(s: Seq<KeyStats>, c1: char, c2: char) -> bool {
    let a = ks_at(s, c1);
    let b = ks_at(s, c2);
    (a.error_count as nat) * (b.total_attempts as nat) >= (b.error_count as nat) * (
    a.total_attempts as nat)
}

/// The entry of `s` tracking pair `k` (meaningful when pairs are unique
/// and some entry tracks `k`).
pub open spec fn bs_at(s: Seq<BigramStats>, k: CharPair) -> BigramStats {
    s[choose|i: int| 0 <= i < s.len() && s[i].bigram == k]
}

pub open spec fn bs_pairs_unique(s: Seq<BigramStats>) -> bool {
    forall|i: int, j: int| 0 <= i < j < s.len() ==> s[i].bigram != s[j].bigram
}

/// With unique pairs, `bs_at` agrees with any entry that tracks `k`.
pub proof fn lemma_bs_at(s: Seq<BigramStats>, i: int)
    requires
        bs_pairs_unique(s),
        0 <= i < s.len(),
    ensures
        bs_at(s, s[i].bigram) == s[i],
{
    let k = s[i].bigram;
    let j = choose|j: int| 0 <= j < s.len() && s[j].bigram == k;
    assert(0 <= j < s.len() && s[j].bigram == k);
}

/// The tracked entry of `k1` has an accuracy at most that of `k2`'s.
pub open spec fn accuracy_leq(s: Seq<BigramStats>, k1: CharPair, k2: CharPair) -> bool {
    let a = bs_at(s, k1);
    let b = bs_at(s, k2);
    (a.correct_attempts as nat) * (b.total_attempts as nat) <= (b.correct_attempts as nat) * (
    a.total_attempts as nat)
}

/// `c` is tracked by some weak entry among the first `hi` entries of `s`.
pub open spec fn weak_src_upto(
    s: Seq<KeyStats>,
    threshold: u64,
    p: (char, u64, u64),
    hi: int,
) -> bool {
    exists|i: int|
        0 <= i < hi <= s.len() && (#[trigger] s[i]).key == p.0 && s[i].error_count == p.1
            && s[i].total_attempts == p.2 && weak_eligible(s[i], threshold)
}

/// `c` is tracked by some weak entry of `s`.
pub open spec fn weak_listed(s: Seq<KeyStats>, threshold: u64, c: char) -> bool {
    exists|j: int| 0 <= j < s.len() && (#[trigger] s[j]).key == c && weak_eligible(s[j], threshold)
}

/// `c` is tracked by some entry of `s` that qualifies for the latency
/// ranking.
pub open spec fn slow_listed(s: Seq<KeyStats>, c: char) -> bool {
    exists|j: int| 0 <= j < s.len() && (#[trigger] s[j]).key == c && slow_eligible(s[j])
}

/// `k` is tracked by some weak pair entry of `s`.
pub open spec fn weak_bigram_listed(s: Seq<BigramStats>, k: CharPair) -> bool {
    exists|j: int| 0 <= j < s.len() && (#[trigger] s[j]).bigram == k && weak_bigram_eligible(s[j])
}

/// The pool triple `p` mirrors a latency-ranked entry among the first `hi`
/// entries of `s`: its key, accumulated time and correct count.
pub open spec fn slow_src_upto(s: Seq<KeyStats>, p: (char, u64, u64), hi: int) -> bool {
    exists|i: int|
        0 <= i < hi <= s.len() && (#[trigger] s[i]).key == p.0 && s[i].total_time_ms == p.1
            && s[i].correct_attempts == p.2 && slow_eligible(s[i])
}

/// The pool triple `p` mirrors a weak pair entry among the first `hi`
/// entries of `s`: its pair, correct count and attempt count.
pub open spec fn bigram_src_upto(s: Seq<BigramStats>, p: (CharPair, u64, u64), hi: int) -> bool {
    exists|i: int|
        0 <= i < hi <= s.len() && (#[trigger] s[i]).bigram == p.0 && s[i].correct_attempts == p.1
            && s[i].total_attempts == p.2 && weak_bigram_eligible(s[i])
}

/// Some pool entry carries key `c`.
pub open spec fn pool_has_key<V>(pool: Seq<(char, V, V)>, c: char) -> bool {
    exists|k: int| 0 <= k < pool.len() && (#[trigger] pool[k]).0 == c
}

/// Some pool entry carries pair `p`.
pub open spec fn pool_has_pair<V>(pool: Seq<(CharPair, V, V)>, p: CharPair) -> bool {
    exists|k: int| 0 <= k < pool.len() && (#[trigger] pool[k]).0 == p
}

/// `p` is an element of `s`.
pub open spec fn in_list<T>(s: Seq<T>, p: T) -> bool {
    exists|i: int| 0 <= i < s.len() && s[i] == p
}

/// `ranked_before` is transitive once the denominators are positive.
proof fn lemma_ranked_trans<K>(
    a: (K, u64, u64),
    b: (K, u64, u64),
    c: (K, u64, u64),
    descending: bool,
)
    requires
        a.2 > 0,
        b.2 > 0,
        c.2 > 0,
        ranked_before(a, b, descending),
        ranked_before(b, c, descending),
    ensures
        ranked_before(a, c, descending),
{
    let a1 = a.1 as nat;
    let a2 = a.2 as nat;
    let b1 = b.1 as nat;
    let b2 = b.2 as nat;
    let c1 = c.1 as nat;
    let c2 = c.2 as nat;
    if descending {
        assert(a1 * c2 >= c1 * a2) by (nonlinear_arith)
            requires
                a1 * b2 >= b1 * a2,
                b1 * c2 >= c1 * b2,
                a2 > 0,
                b2 > 0,
                c2 > 0,
        ;
    } else {
        assert(a1 * c2 <= c1 * a2) by (nonlinear_arith)
            requires
                a1 * b2 <= b1 * a2,
                b1 * c2 <= c1 * b2,
                a2 > 0,
                b2 > 0,
                c2 > 0,
        ;
    }
}

/// The product of two `u64` values, exact in 128 bits.
fn cross_mul(a: u64, b: u64) -> (r: u128)
    ensures
        r as nat == (a as nat) * (b as nat),
{
    proof {
        assert((a as nat) * (b as nat) <= (u64::MAX as nat) * (u64::MAX as nat))
            by (nonlinear_arith)
            requires
                a <= u64::MAX,
                b <= u64::MAX,
        ;
    }
    (a as u128) * (b as u128)
}

/// Rank the pool and keep its best `limit` entries.
///
/// The result consists of pool entries with the keys still distinct; it is
/// sorted (best first) under `ranked_before`; it is exactly `limit` long
/// unless the pool was smaller, in which case every pool entry appears.
#[verifier::rlimit(50)]
fn extract_ranked<K>(pool: Vec<(K, u64, u64)>, limit: usize, descending: bool) -> (out: Vec<
    (K, u64, u64),
>)
    requires
        forall|i: int, j: int| 0 <= i < j < pool@.len() ==> pool@[i].0 != pool@[j].0,
        forall|i: int| 0 <= i < pool@.len() ==> (#[trigger] pool@[i]).2 > 0,
    ensures
        out@.len() == if pool@.len() < limit {
            pool@.len() as int
        } else {
            limit as int
        },
        forall|i: int| 0 <= i < out@.len() ==> in_list(pool@, #[trigger] out@[i]),
        forall|i: int, j: int| 0 <= i < j < out@.len() ==> out@[i].0 != out@[j].0,
        forall|i: int, j: int|
            0 <= i < j < out@.len() ==> ranked_before(out@[i], out@[j], descending),
        forall|j: int|
            0 <= j < pool@.len() ==> (out@.len() == limit || in_list(out@, #[trigger] pool@[j])),
        forall|i: int, j: int|
            0 <= i < out@.len() && 0 <= j < pool@.len() && !in_list(out@, #[trigger] pool@[j])
                ==> ranked_before(#[trigger] out@[i], pool@[j], descending),
{
    let ghost orig = pool@;
    let mut pool = pool;
    let mut out: Vec<(K, u64, u64)> = Vec::new();
    proof {
        assert forall|i: int| 0 <= i < pool@.len() implies in_list(orig, #[trigger] pool@[i]) by {
            assert(orig[i] == pool@[i]);
        }
        assert forall|j: int| 0 <= j < orig.len() implies in_list(out@, #[trigger] orig[j])
            || in_list(pool@, orig[j]) by {
            assert(pool@[j] == orig[j]);
        }
    }

    while out.len() < limit && pool.len() > 0
        invariant
            out@.len() <= limit,
            out@.len() + pool@.len() == orig.len(),
            forall|i: int| 0 <= i < pool@.len() ==> (#[trigger] pool@[i]).2 > 0,
            forall|i: int| 0 <= i < out@.len() ==> (#[trigger] out@[i]).2 > 0,
            forall|i: int| 0 <= i < out@.len() ==> in_list(orig, #[trigger] out@[i]),
            forall|i: int| 0 <= i < pool@.len() ==> in_list(orig, #[trigger] pool@[i]),
            forall|i: int, j: int| 0 <= i < j < out@.len() ==> out@[i].0 != out@[j].0,
            forall|i: int, j: int| 0 <= i < j < pool@.len() ==> pool@[i].0 != pool@[j].0,
            forall|i: int, j: int|
                0 <= i < out@.len() && 0 <= j < pool@.len() ==> out@[i].0 != pool@[j].0,
            forall|i: int, j: int|
                0 <= i < j < out@.len() ==> ranked_before(out@[i], out@[j], descending),
            forall|i: int, j: int|
                0 <= i < out@.len() && 0 <= j < pool@.len() ==> ranked_before(
                    out@[i],
                    pool@[j],
                    descending,
                ),
            forall|j: int|
                0 <= j < orig.len() ==> in_list(out@, #[trigger] orig[j]) || in_list(
                    pool@,
                    orig[j],
                ),
        decreases pool@.len(),
    {
        // find the best remaining entry
        let mut best: usize = 0;
        let n = pool.len();
        for k in 1..n
            invariant
                n == pool@.len(),
                0 < n,
                best < n,
                forall|i: int| 0 <= i < pool@.len() ==> (#[trigger] pool@[i]).2 > 0,
                forall|j: int| 0 <= j < k ==> ranked_before(pool@[best as int], pool@[j], descending),
        {
            let a = &pool[best];
            let b = &pool[k];
            let a_cross = cross_mul(a.1, b.2);
            let b_cross = cross_mul(b.1, a.2);
            let b_better = if descending {
                b_cross > a_cross
            } else {
                b_cross < a_cross
            };
            let ghost old_best = best as int;
            if b_better {
                best = k;
            }
            proof {
                assert forall|j: int| 0 <= j < k + 1 implies ranked_before(
                    pool@[best as int],
                    pool@[j],
                    descending,
                ) by {
                    if b_better {
                        assert(ranked_before(pool@[k as int], pool@[old_best], descending));
                        if j < k {
                            lemma_ranked_trans(
                                pool@[k as int],
                                pool@[old_best],
                                pool@[j],
                                descending,
                            );
                        }
                    }
                }
            }
        }
        let ghost pre_pool = pool@;
        let ghost pre_out = out@;
        let chosen = pool.remove(best);
        out.push(chosen);
        proof {
            assert(chosen == pre_pool[best as int]);
            assert(out@ == pre_out.push(chosen));
            assert(pool@ == pre_pool.remove(best as int));
            assert forall|i: int| 0 <= i < pool@.len() implies in_list(orig, #[trigger] pool@[i])
                && pool@[i].2 > 0 by {
                if i < best {
                    assert(pre_pool[i] == pool@[i]);
                } else {
                    assert(pre_pool[i + 1] == pool@[i]);
                }
            }
            assert forall|j: int| 0 <= j < orig.len() implies in_list(out@, #[trigger] orig[j])
                || in_list(pool@, orig[j]) by {
                if in_list(pre_out, orig[j]) {
                    let i = choose|i: int| 0 <= i < pre_out.len() && pre_out[i] == orig[j];
                    assert(out@[i] == orig[j]);
                } else {
                    let i = choose|i: int| 0 <= i < pre_pool.len() && pre_pool[i] == orig[j];
                    if i == best {
                        assert(out@[out@.len() - 1] == orig[j]);
                    } else if i < best {
                        assert(pool@[i] == orig[j]);
                    } else {
                        assert(pool@[i - 1] == orig[j]);
                    }
                }
            }
        }
    }
    proof {
        // an entry left unextracted survives in the remaining pool, which
        // every extracted entry dominates
        assert forall|i: int, j: int|
            0 <= i < out@.len() && 0 <= j < orig.len() && !in_list(out@, #[trigger] orig[j]) implies ranked_before(
            #[trigger] out@[i],
            orig[j],
            descending,
        ) by {
            assert(in_list(pool@, orig[j]));
            let k = choose|k: int| 0 <= k < pool@.len() && pool@[k] == orig[j];
            assert(ranked_before(out@[i], pool@[k], descending));
        }
    }
    out
}

/// Weakness detector: queries over the aggregate that surface problem
/// areas.
pub struct WeaknessDetector;

impl WeaknessDetector {

/// The up-to-5 weakest characters: accuracy below `threshold` percent with
/// at least 10 attempts, worst error rate first.
///
/// Every returned character is tracked, has at least 10 attempts and
/// accuracy strictly below the threshold. At most 5 are returned; fewer
/// only when fewer qualify, and then every qualifying character appears;
/// a qualifying character left out never has a higher error rate than a
/// returned one.
#[verifier::rlimit(80)]
pub fn identify_weak_keys(analytics: &AdaptiveAnalytics, threshold: u64) -> (r: Vec<char>)
    requires
        analytics.wf(),
    ensures
        r@.len() <= 5,
        forall|i: int|
            0 <= i < r@.len() ==> weak_listed(analytics.key_stats@, threshold, #[trigger] r@[i]),
        forall|i: int, j: int| 0 <= i < j < r@.len() ==> r@[i] != r@[j],
        forall|j: int|
            0 <= j < analytics.key_stats@.len() && weak_eligible(
                #[trigger] analytics.key_stats@[j],
                threshold,
            ) ==> (r@.len() == 5 || r@.contains(analytics.key_stats@[j].key)),
        forall|i: int, j: int|
            0 <= i < j < r@.len() ==> error_rate_geq(
                analytics.key_stats@,
                #[trigger] r@[i],
                #[trigger] r@[j],
            ),
        forall|i: int, j: int|
            0 <= i < r@.len() && 0 <= j < analytics.key_stats@.len() && weak_eligible(
                #[trigger] analytics.key_stats@[j],
                threshold,
            ) && !r@.contains(analytics.key_stats@[j].key) ==> error_rate_geq(
                analytics.key_stats@,
                #[trigger] r@[i],
                analytics.key_stats@[j].key,
            ),
{
    let n = analytics.key_stats.len();
    let ghost sv = analytics.key_stats@;
    proof {
        assert forall|i: int, j: int| 0 <= i < j < sv.len() implies sv[i].key != sv[j].key by {
            assert(crate::stats::ks_pairs(sv)[i].0 == sv[i].key);
            assert(crate::stats::ks_pairs(sv)[j].0 == sv[j].key);
        }
    }

    let mut pool: Vec<(char, u64, u64)> = Vec::new();
    for j in 0..n
        invariant
            n == sv.len(),
            sv == analytics.key_stats@,
            ks_keys_unique(sv),
            forall|k: int|
                0 <= k < pool@.len() ==> weak_src_upto(sv, threshold, #[trigger] pool@[k], j as int),
            forall|k1: int, k2: int| 0 <= k1 < k2 < pool@.len() ==> pool@[k1].0 != pool@[k2].0,
            forall|i: int|
                0 <= i < j && weak_eligible(#[trigger] sv[i], threshold) ==> pool_has_key(
                    pool@,
                    sv[i].key,
                ),
    {
        let ks = &analytics.key_stats[j];
        if ks.total_attempts >= 10 && cross_mul(ks.correct_attempts, 100) < cross_mul(
            threshold,
            ks.total_attempts,
        ) {
            let ghost pre = pool@;
            let p = (ks.key, ks.error_count, ks.total_attempts);
            proof {
                assert(sv[j as int].key == p.0 && sv[j as int].error_count == p.1
                    && sv[j as int].total_attempts == p.2 && weak_eligible(sv[j as int], threshold));
                assert(weak_src_upto(sv, threshold, p, j + 1));
                assert forall|k1: int| 0 <= k1 < pre.len() implies pre[k1].0 != p.0 by {
                    let i = choose|i: int|
                        0 <= i < j && (#[trigger] sv[i]).key == pre[k1].0 && sv[i].error_count
                            == pre[k1].1 && sv[i].total_attempts == pre[k1].2 && weak_eligible(
                            sv[i],
                            threshold,
                        );
                    assert(sv[i].key != sv[j as int].key);
                }
            }
            pool.push(p);
            proof {
                assert forall|k: int| 0 <= k < pool@.len() implies weak_src_upto(
                    sv,
                    threshold,
                    #[trigger] pool@[k],
                    j + 1,
                ) by {
                    if k < pre.len() {
                        assert(pool@[k] == pre[k]);
                        let i = choose|i: int|
                            0 <= i < j && (#[trigger] sv[i]).key == pre[k].0 && sv[i].error_count
                                == pre[k].1 && sv[i].total_attempts == pre[k].2 && weak_eligible(
                                sv[i],
                                threshold,
                            );
                        assert(weak_src_upto(sv, threshold, pool@[k], j + 1));
                    } else {
                        assert(pool@[k] == p);
                    }
                }
                assert forall|i: int|
                    0 <= i < j + 1 && weak_eligible(#[trigger] sv[i], threshold) implies pool_has_key(
                    pool@,
                    sv[i].key,
                ) by {
                    if i < j {
                        let k = choose|k: int| 0 <= k < pre.len() && (#[trigger] pre[k]).0 == sv[i].key;
                        assert(pool@[k].0 == sv[i].key);
                    } else {
                        assert(pool@[pool@.len() - 1].0 == sv[i].key);
                    }
                }
            }
        } else {
            proof {
                assert(!weak_eligible(sv[j as int], threshold));
            }
        }
    }

    let ghost pool_snapshot = pool@;
    proof {
        assert forall|k: int| 0 <= k < pool@.len() implies (#[trigger] pool@[k]).2 > 0 by {
            let i = choose|i: int|
                0 <= i < sv.len() && (#[trigger] sv[i]).key == pool@[k].0 && sv[i].error_count
                    == pool@[k].1 && sv[i].total_attempts == pool@[k].2 && weak_eligible(
                    sv[i],
                    threshold,
                );
        }
    }
    let ranked = extract_ranked(pool, 5, true);

    let mut r: Vec<char> = Vec::new();
    let m = ranked.len();
    for i in 0..m
        invariant
            m == ranked@.len(),
            r@.len() == i,
            forall|k: int| 0 <= k < i ==> r@[k] == (#[trigger] ranked@[k]).0,
    {
        r.push(ranked[i].0);
    }

    proof {
        assert forall|i: int, j: int| 0 <= i < j < r@.len() implies r@[i] != r@[j] by {
            assert(r@[i] == ranked@[i].0 && r@[j] == ranked@[j].0);
        }
        // each ranked entry is a pool entry, hence a weak tracked character
        assert forall|i: int| 0 <= i < r@.len() implies weak_listed(sv, threshold, r@[i]) by {
            assert(in_list(pool_snapshot, ranked@[i]));
            let j = choose|j: int| 0 <= j < pool_snapshot.len() && pool_snapshot[j] == ranked@[i];
            assert(weak_src_upto(sv, threshold, pool_snapshot[j], sv.len() as int));
        }
        // completeness: a weak character not returned means 5 were returned
        assert forall|j: int|
            0 <= j < sv.len() && weak_eligible(sv[j], threshold) && r@.len() != 5 implies r@.contains(
            sv[j].key,
        ) by {
            assert(pool_has_key(pool_snapshot, sv[j].key));
            let k = choose|k: int|
                0 <= k < pool_snapshot.len() && (#[trigger] pool_snapshot[k]).0 == sv[j].key;
            assert(pool_snapshot.len() < 5);
            assert(in_list(ranked@, pool_snapshot[k]));
            let i = choose|i: int| 0 <= i < ranked@.len() && ranked@[i] == pool_snapshot[k];
            assert(r@[i] == sv[j].key);
        }
        // sortedness transfers through the unique-key lookup
        assert forall|i: int, j: int| 0 <= i < j < r@.len() implies error_rate_geq(
            sv,
            r@[i],
            r@[j],
        ) by {
            assert(in_list(pool_snapshot, ranked@[i]));
            assert(in_list(pool_snapshot, ranked@[j]));
            let pi = choose|p: int| 0 <= p < pool_snapshot.len() && pool_snapshot[p] == ranked@[i];
            let pj = choose|p: int| 0 <= p < pool_snapshot.len() && pool_snapshot[p] == ranked@[j];
            let ei = choose|e: int|
                0 <= e < sv.len() && (#[trigger] sv[e]).key == pool_snapshot[pi].0
                    && sv[e].error_count == pool_snapshot[pi].1 && sv[e].total_attempts
                    == pool_snapshot[pi].2 && weak_eligible(sv[e], threshold);
            let ej = choose|e: int|
                0 <= e < sv.len() && (#[trigger] sv[e]).key == pool_snapshot[pj].0
                    && sv[e].error_count == pool_snapshot[pj].1 && sv[e].total_attempts
                    == pool_snapshot[pj].2 && weak_eligible(sv[e], threshold);
            lemma_ks_at(sv, ei);
            lemma_ks_at(sv, ej);
            assert(ranked_before(ranked@[i], ranked@[j], true));
        }
        // dominance: a weak character left out has an error rate no higher
        // than any returned one
        assert forall|i: int, j: int|
            0 <= i < r@.len() && 0 <= j < sv.len() && weak_eligible(sv[j], threshold)
                && !r@.contains(sv[j].key) implies error_rate_geq(sv, r@[i], sv[j].key) by {
            assert(pool_has_key(pool_snapshot, sv[j].key));
            let k = choose|k: int|
                0 <= k < pool_snapshot.len() && (#[trigger] pool_snapshot[k]).0 == sv[j].key;
            if in_list(ranked@, pool_snapshot[k]) {
                let ri = choose|ri: int|
                    0 <= ri < ranked@.len() && ranked@[ri] == pool_snapshot[k];
                assert(r@[ri] == sv[j].key);
                assert(r@.contains(sv[j].key));
            }
            assert(ranked_before(ranked@[i], pool_snapshot[k], true));
            assert(in_list(pool_snapshot, ranked@[i]));
            let pi = choose|p: int| 0 <= p < pool_snapshot.len() && pool_snapshot[p] == ranked@[i];
            let ei = choose|e: int|
                0 <= e < sv.len() && (#[trigger] sv[e]).key == pool_snapshot[pi].0
                    && sv[e].error_count == pool_snapshot[pi].1 && sv[e].total_attempts
                    == pool_snapshot[pi].2 && weak_eligible(sv[e], threshold);
            let ej = choose|e: int|
                0 <= e < sv.len() && (#[trigger] sv[e]).key == pool_snapshot[k].0
                    && sv[e].error_count == pool_snapshot[k].1 && sv[e].total_attempts
                    == pool_snapshot[k].2 && weak_eligible(sv[e], threshold);
            assert(ej == j);
            lemma_ks_at(sv, ei);
            lemma_ks_at(sv, j);
        }
    }
    r
}

/// The up-to-5 weakest pairs: accuracy below 85% with at least 5 attempts,
/// lowest accuracy first.
///
/// At most 5 are returned; fewer only when fewer qualify, and then every
/// qualifying pair appears; a qualifying pair left out never has a lower
/// accuracy than a returned one.
#[verifier::rlimit(80)]
pub fn identify_weak_bigrams(analytics: &AdaptiveAnalytics) -> (r: Vec<CharPair>)
    requires
        analytics.wf(),
    ensures
        r@.len() <= 5,
        forall|i: int|
            0 <= i < r@.len() ==> weak_bigram_listed(analytics.bigram_stats@, #[trigger] r@[i]),
        forall|i: int, j: int| 0 <= i < j < r@.len() ==> r@[i] != r@[j],
        forall|j: int|
            0 <= j < analytics.bigram_stats@.len() && weak_bigram_eligible(
                #[trigger] analytics.bigram_stats@[j],
            ) ==> (r@.len() == 5 || r@.contains(analytics.bigram_stats@[j].bigram)),
        forall|i: int, j: int|
            0 <= i < j < r@.len() ==> accuracy_leq(
                analytics.bigram_stats@,
                #[trigger] r@[i],
                #[trigger] r@[j],
            ),
        forall|i: int, j: int|
            0 <= i < r@.len() && 0 <= j < analytics.bigram_stats@.len() && weak_bigram_eligible(
                #[trigger] analytics.bigram_stats@[j],
            ) && !r@.contains(analytics.bigram_stats@[j].bigram) ==> accuracy_leq(
                analytics.bigram_stats@,
                #[trigger] r@[i],
                analytics.bigram_stats@[j].bigram,
            ),
{
    let n = analytics.bigram_stats.len();
    let ghost sv = analytics.bigram_stats@;
    proof {
        assert forall|i: int, j: int| 0 <= i < j < sv.len() implies sv[i].bigram != sv[j].bigram by {
            assert(crate::stats::bs_pairs(sv)[i].0 == sv[i].bigram);
            assert(crate::stats::bs_pairs(sv)[j].0 == sv[j].bigram);
        }
    }

    let mut pool: Vec<(CharPair, u64, u64)> = Vec::new();
    for j in 0..n
        invariant
            n == sv.len(),
            sv == analytics.bigram_stats@,
            forall|i: int, j2: int| 0 <= i < j2 < sv.len() ==> sv[i].bigram != sv[j2].bigram,
            forall|k: int|
                0 <= k < pool@.len() ==> bigram_src_upto(sv, #[trigger] pool@[k], j as int),
            forall|k1: int, k2: int| 0 <= k1 < k2 < pool@.len() ==> pool@[k1].0 != pool@[k2].0,
            forall|i: int|
                0 <= i < j && weak_bigram_eligible(#[trigger] sv[i]) ==> pool_has_pair(
                    pool@,
                    sv[i].bigram,
                ),
    {
        let bs = &analytics.bigram_stats[j];
        if bs.total_attempts >= 5 && cross_mul(bs.correct_attempts, 100) < cross_mul(
            85,
            bs.total_attempts,
        ) {
            let ghost pre = pool@;
            let p = (bs.bigram, bs.correct_attempts, bs.total_attempts);
            proof {
                assert(sv[j as int].bigram == p.0 && sv[j as int].correct_attempts == p.1
                    && sv[j as int].total_attempts == p.2 && weak_bigram_eligible(sv[j as int]));
                assert(bigram_src_upto(sv, p, j + 1));
                assert forall|k1: int| 0 <= k1 < pre.len() implies pre[k1].0 != p.0 by {
                    let i = choose|i: int|
                        0 <= i < j && (#[trigger] sv[i]).bigram == pre[k1].0
                            && sv[i].correct_attempts == pre[k1].1 && sv[i].total_attempts
                            == pre[k1].2 && weak_bigram_eligible(sv[i]);
                    assert(sv[i].bigram != sv[j as int].bigram);
                }
            }
            pool.push(p);
            proof {
                assert forall|k: int| 0 <= k < pool@.len() implies bigram_src_upto(
                    sv,
                    #[trigger] pool@[k],
                    j + 1,
                ) by {
                    if k < pre.len() {
                        assert(pool@[k] == pre[k]);
                        let i = choose|i: int|
                            0 <= i < j && (#[trigger] sv[i]).bigram == pre[k].0
                                && sv[i].correct_attempts == pre[k].1 && sv[i].total_attempts
                                == pre[k].2 && weak_bigram_eligible(sv[i]);
                        assert(bigram_src_upto(sv, pool@[k], j + 1));
                    } else {
                        assert(pool@[k] == p);
                    }
                }
                assert forall|i: int|
                    0 <= i < j + 1 && weak_bigram_eligible(#[trigger] sv[i]) implies pool_has_pair(
                    pool@,
                    sv[i].bigram,
                ) by {
                    if i < j {
                        let k = choose|k: int|
                            0 <= k < pre.len() && (#[trigger] pre[k]).0 == sv[i].bigram;
                        assert(pool@[k].0 == sv[i].bigram);
                    } else {
                        assert(pool@[pool@.len() - 1].0 == sv[i].bigram);
                    }
                }
            }
        } else {
            proof {
                assert(!weak_bigram_eligible(sv[j as int]));
            }
        }
    }

    let ghost pool_snapshot = pool@;
    proof {
        assert forall|k: int| 0 <= k < pool@.len() implies (#[trigger] pool@[k]).2 > 0 by {
            let i = choose|i: int|
                0 <= i < sv.len() && (#[trigger] sv[i]).bigram == pool@[k].0
                    && sv[i].correct_attempts == pool@[k].1 && sv[i].total_attempts == pool@[k].2
                    && weak_bigram_eligible(sv[i]);
        }
    }
    let ranked = extract_ranked(pool, 5, false);

    let mut r: Vec<CharPair> = Vec::new();
    let m = ranked.len();
    for i in 0..m
        invariant
            m == ranked@.len(),
            r@.len() == i,
            forall|k: int| 0 <= k < i ==> r@[k] == (#[trigger] ranked@[k]).0,
    {
        r.push(ranked[i].0);
    }

    proof {
        assert forall|i: int, j: int| 0 <= i < j < r@.len() implies r@[i] != r@[j] by {
            assert(r@[i] == ranked@[i].0 && r@[j] == ranked@[j].0);
        }
        assert forall|i: int| 0 <= i < r@.len() implies weak_bigram_listed(sv, r@[i]) by {
            assert(in_list(pool_snapshot, ranked@[i]));
            let j = choose|j: int| 0 <= j < pool_snapshot.len() && pool_snapshot[j] == ranked@[i];
            assert(bigram_src_upto(sv, pool_snapshot[j], sv.len() as int));
        }
        assert forall|j: int|
            0 <= j < sv.len() && weak_bigram_eligible(sv[j]) && r@.len() != 5 implies r@.contains(
            sv[j].bigram,
        ) by {
            assert(pool_has_pair(pool_snapshot, sv[j].bigram));
            let k = choose|k: int|
                0 <= k < pool_snapshot.len() && (#[trigger] pool_snapshot[k]).0 == sv[j].bigram;
            assert(pool_snapshot.len() < 5);
            assert(in_list(ranked@, pool_snapshot[k]));
            let i = choose|i: int| 0 <= i < ranked@.len() && ranked@[i] == pool_snapshot[k];
            assert(r@[i] == sv[j].bigram);
        }
        // ascending accuracy, through the unique-pair lookup
        assert forall|i: int, j: int| 0 <= i < j < r@.len() implies accuracy_leq(
            sv,
            r@[i],
            r@[j],
        ) by {
            assert(in_list(pool_snapshot, ranked@[i]));
            assert(in_list(pool_snapshot, ranked@[j]));
            let pi = choose|p: int| 0 <= p < pool_snapshot.len() && pool_snapshot[p] == ranked@[i];
            let pj = choose|p: int| 0 <= p < pool_snapshot.len() && pool_snapshot[p] == ranked@[j];
            let ei = choose|e: int|
                0 <= e < sv.len() && (#[trigger] sv[e]).bigram == pool_snapshot[pi].0
                    && sv[e].correct_attempts == pool_snapshot[pi].1 && sv[e].total_attempts
                    == pool_snapshot[pi].2 && weak_bigram_eligible(sv[e]);
            let ej = choose|e: int|
                0 <= e < sv.len() && (#[trigger] sv[e]).bigram == pool_snapshot[pj].0
                    && sv[e].correct_attempts == pool_snapshot[pj].1 && sv[e].total_attempts
                    == pool_snapshot[pj].2 && weak_bigram_eligible(sv[e]);
            lemma_bs_at(sv, ei);
            lemma_bs_at(sv, ej);
            assert(ranked_before(ranked@[i], ranked@[j], false));
        }
        // dominance: a weak pair left out has an accuracy no lower than
        // any returned one
        assert forall|i: int, j: int|
            0 <= i < r@.len() && 0 <= j < sv.len() && weak_bigram_eligible(sv[j]) && !r@.contains(
                sv[j].bigram,
            ) implies accuracy_leq(sv, r@[i], sv[j].bigram) by {
            assert(pool_has_pair(pool_snapshot, sv[j].bigram));
            let k = choose|k: int|
                0 <= k < pool_snapshot.len() && (#[trigger] pool_snapshot[k]).0 == sv[j].bigram;
            if in_list(ranked@, pool_snapshot[k]) {
                let ri = choose|ri: int|
                    0 <= ri < ranked@.len() && ranked@[ri] == pool_snapshot[k];
                assert(r@[ri] == sv[j].bigram);
                assert(r@.contains(sv[j].bigram));
            }
            assert(ranked_before(ranked@[i], pool_snapshot[k], false));
            assert(in_list(pool_snapshot, ranked@[i]));
            let pi = choose|p: int| 0 <= p < pool_snapshot.len() && pool_snapshot[p] == ranked@[i];
            let ei = choose|e: int|
                0 <= e < sv.len() && (#[trigger] sv[e]).bigram == pool_snapshot[pi].0
                    && sv[e].correct_attempts == pool_snapshot[pi].1 && sv[e].total_attempts
                    == pool_snapshot[pi].2 && weak_bigram_eligible(sv[e]);
            let ej = choose|e: int|
                0 <= e < sv.len() && (#[trigger] sv[e]).bigram == pool_snapshot[k].0
                    && sv[e].correct_attempts == pool_snapshot[k].1 && sv[e].total_attempts
                    == pool_snapshot[k].2 && weak_bigram_eligible(sv[e]);
            assert(ej == j);
            lemma_bs_at(sv, ei);
            lemma_bs_at(sv, j);
        }
    }
    r
}

}

/// The `(total time, correct count)` samples of the qualifying entries
/// among the first `hi` of `s`, in store order.
pub open spec fn eligible_samples_upto(s: Seq<KeyStats>, hi: int) -> Seq<(u64, u64)>
    decreases hi,
{
    if hi <= 0 {
        Seq::empty()
    } else {
        let prefix = eligible_samples_upto(s, hi - 1);
        if slow_eligible(s[hi - 1]) {
            prefix.push((s[hi - 1].total_time_ms, s[hi - 1].correct_attempts))
        } else {
            prefix
        }
    }
}

/// The samples of every qualifying entry of `s`, in store order.
pub open spec fn eligible_samples(s: Seq<KeyStats>) -> Seq<(u64, u64)> {
    eligible_samples_upto(s, s.len() as int)
}

/// The samples a pool of `(key, time, count)` triples carries.
pub open spec fn pool_samples(pool: Seq<(char, u64, u64)>) -> Seq<(u64, u64)> {
    pool.map_values(|p: (char, u64, u64)| (p.1, p.2))
}

/// The index of the percentile threshold within a sorted list of `len`
/// samples: `len * percentile / 100`, clamped to the last entry.
pub open spec fn percentile_index(len: int, percentile: u64) -> int {
    let i = len * percentile / 100;
    if i >= len - 1 {
        len - 1
    } else {
        i
    }
}

/// `ts` is the multiset of the qualifying entries' samples, arranged in
/// ascending order of average latency.
pub open spec fn is_sorted_samples(s: Seq<KeyStats>, ts: Seq<(u64, u64)>) -> bool {
    &&& ts.to_multiset() == eligible_samples(s).to_multiset()
    &&& ts.len() == eligible_samples(s).len()
    &&& forall|i: int, j: int| 0 <= i < j < ts.len() ==> avg_leq(ts[i], ts[j])
}

/// `(tt, tc)` sits at the requested percentile of the qualifying entries'
/// samples sorted ascending by average, and `r` holds exactly the
/// qualifying characters whose average latency strictly exceeds it.
pub open spec fn slow_result_ok(
    s: Seq<KeyStats>,
    r: Seq<char>,
    tt: u64,
    tc: u64,
    percentile: u64,
) -> bool {
    &&& (exists|ts: Seq<(u64, u64)>|
        #[trigger] is_sorted_samples(s, ts) && ts.len() > 0 && (tt, tc) == ts[percentile_index(
            ts.len() as int,
            percentile,
        )])
    &&& forall|j: int|
        0 <= j < s.len() && slow_eligible(#[trigger] s[j]) ==> (r.contains(s[j].key) <==> (
        s[j].total_time_ms as nat) * (tc as nat) > (tt as nat) * (s[j].correct_attempts as nat))
}

/// The pool sample at `k1` lies strictly above the threshold average `t`.
pub open spec fn above_threshold(p: (char, u64, u64), t: (u64, u64)) -> bool {
    (p.1 as nat) * (t.1 as nat) > (t.0 as nat) * (p.2 as nat)
}

/// `c` is the key of one of the first `hi` pool entries whose sample lies
/// strictly above the threshold average `t`.
pub open spec fn from_pool_above(
    pool: Seq<(char, u64, u64)>,
    t: (u64, u64),
    hi: int,
    c: char,
) -> bool {
    exists|k: int| 0 <= k < hi <= pool.len() && (#[trigger] pool[k]).0 == c && above_threshold(pool[k], t)
}

impl WeaknessDetector {

/// Characters whose average correct-keystroke latency strictly exceeds the
/// latency at the requested percentile of all qualifying characters.
///
/// With no qualifying character the list is empty. Otherwise the
/// threshold is the sample sitting at the percentile index of the
/// qualifying samples sorted ascending by average, and a qualifying
/// character is returned exactly when its average latency strictly
/// exceeds that threshold's average.
#[verifier::rlimit(80)]
pub fn identify_slow_keys(analytics: &AdaptiveAnalytics, percentile: u64) -> (r: Vec<char>)
    requires
        analytics.wf(),
        percentile <= 100,
    ensures
        (forall|j: int|
            0 <= j < analytics.key_stats@.len() ==> !slow_eligible(
                #[trigger] analytics.key_stats@[j],
            )) ==> r@.len() == 0,
        forall|i: int, j: int| 0 <= i < j < r@.len() ==> r@[i] != r@[j],
        forall|i: int| 0 <= i < r@.len() ==> slow_listed(analytics.key_stats@, #[trigger] r@[i]),
        (exists|j: int|
            0 <= j < analytics.key_stats@.len() && slow_eligible(
                #[trigger] analytics.key_stats@[j],
            )) ==> exists|tt: u64, tc: u64| #[trigger] slow_result_ok(
            analytics.key_stats@,
            r@,
            tt,
            tc,
            percentile,
        ),
{
    let n = analytics.key_stats.len();
    let ghost sv = analytics.key_stats@;
    proof {
        assert forall|i: int, j: int| 0 <= i < j < sv.len() implies sv[i].key != sv[j].key by {
            assert(crate::stats::ks_pairs(sv)[i].0 == sv[i].key);
            assert(crate::stats::ks_pairs(sv)[j].0 == sv[j].key);
        }
        assert(pool_samples(Seq::<(char, u64, u64)>::empty()) =~= eligible_samples_upto(sv, 0));
    }

    // gather (key, total time, correct count) of every qualifying character
    let mut pool: Vec<(char, u64, u64)> = Vec::new();
    for j in 0..n
        invariant
            n == sv.len(),
            sv == analytics.key_stats@,
            ks_keys_unique(sv),
            forall|k: int| 0 <= k < pool@.len() ==> slow_src_upto(sv, #[trigger] pool@[k], j as int),
            forall|k1: int, k2: int| 0 <= k1 < k2 < pool@.len() ==> pool@[k1].0 != pool@[k2].0,
            forall|i: int|
                0 <= i < j && slow_eligible(#[trigger] sv[i]) ==> pool_has_key(pool@, sv[i].key),
            pool_samples(pool@) == eligible_samples_upto(sv, j as int),
    {
        let ks = &analytics.key_stats[j];
        if ks.correct_attempts >= 5 {
            let ghost pre = pool@;
            let p = (ks.key, ks.total_time_ms, ks.correct_attempts);
            proof {
                assert(sv[j as int].key == p.0 && sv[j as int].total_time_ms == p.1
                    && sv[j as int].correct_attempts == p.2 && slow_eligible(sv[j as int]));
                assert(slow_src_upto(sv, p, j + 1));
                assert forall|k1: int| 0 <= k1 < pre.len() implies pre[k1].0 != p.0 by {
                    let i = choose|i: int|
                        0 <= i < j && (#[trigger] sv[i]).key == pre[k1].0 && sv[i].total_time_ms
                            == pre[k1].1 && sv[i].correct_attempts == pre[k1].2 && slow_eligible(
                            sv[i],
                        );
                    assert(sv[i].key != sv[j as int].key);
                }
            }
            pool.push(p);
            proof {
                assert forall|k: int| 0 <= k < pool@.len() implies slow_src_upto(
                    sv,
                    #[trigger] pool@[k],
                    j + 1,
                ) by {
                    if k < pre.len() {
                        assert(pool@[k] == pre[k]);
                        let i = choose|i: int|
                            0 <= i < j && (#[trigger] sv[i]).key == pre[k].0 && sv[i].total_time_ms
                                == pre[k].1 && sv[i].correct_attempts == pre[k].2 && slow_eligible(
                                sv[i],
                            );
                        assert(slow_src_upto(sv, pool@[k], j + 1));
                    } else {
                        assert(pool@[k] == p);
                    }
                }
                assert forall|i: int|
                    0 <= i < j + 1 && slow_eligible(#[trigger] sv[i]) implies pool_has_key(
                    pool@,
                    sv[i].key,
                ) by {
                    if i < j {
                        let k = choose|k: int| 0 <= k < pre.len() && (#[trigger] pre[k]).0 == sv[i].key;
                        assert(pool@[k].0 == sv[i].key);
                    } else {
                        assert(pool@[pool@.len() - 1].0 == sv[i].key);
                    }
                }
                assert(pool_samples(pool@) =~= pool_samples(pre).push((p.1, p.2)));
            }
        } else {
            proof {
                assert(!slow_eligible(sv[j as int]));
                assert(eligible_samples_upto(sv, j + 1) == eligible_samples_upto(sv, j as int));
            }
        }
    }

    proof {
        assert(pool_samples(pool@) == eligible_samples(sv));
    }

    if pool.len() == 0 {
        let r: Vec<char> = Vec::new();
        proof {
            assert forall|j: int| 0 <= j < sv.len() implies !slow_eligible(#[trigger] sv[j]) by {
                if slow_eligible(sv[j]) {
                    assert(pool_has_key(pool@, sv[j].key));
                }
            }
        }
        return r;
    }

    // sort the (time, count) samples ascending by average latency
    let mut times: Vec<(u64, u64)> = Vec::new();
    let pn = pool.len();
    for k in 0..pn
        invariant
            pn == pool@.len(),
            sv == analytics.key_stats@,
            forall|k1: int|
                0 <= k1 < pool@.len() ==> slow_src_upto(sv, #[trigger] pool@[k1], sv.len() as int),
            times@.len() == k,
            forall|i: int| 0 <= i < k ==> times@[i] == ((#[trigger] pool@[i]).1, pool@[i].2),
            forall|i: int| 0 <= i < k ==> (#[trigger] times@[i]).1 > 0,
    {
        proof {
            let i = choose|i: int|
                0 <= i < sv.len() && (#[trigger] sv[i]).key == pool@[k as int].0
                    && sv[i].total_time_ms == pool@[k as int].1 && sv[i].correct_attempts
                    == pool@[k as int].2 && slow_eligible(sv[i]);
        }
        times.push((pool[k].1, pool[k].2));
    }
    let ghost pre_times = times@;
    sort_by_average(&mut times);

    // the threshold sits at the percentile index, clamped to the last entry
    let wide = cross_mul(times.len() as u64, percentile) / 100;
    let last = times.len() - 1;
    let idx = if wide >= last as u128 {
        last
    } else {
        wide as usize
    };
    let threshold = times[idx];

    // keep the qualifying characters strictly above the threshold average
    let mut r: Vec<char> = Vec::new();
    for k in 0..pn
        invariant
            pn == pool@.len(),
            forall|k1: int, k2: int| 0 <= k1 < k2 < pool@.len() ==> pool@[k1].0 != pool@[k2].0,
            sv == analytics.key_stats@,
            forall|k1: int|
                0 <= k1 < pool@.len() ==> slow_src_upto(sv, #[trigger] pool@[k1], sv.len() as int),
            forall|i: int|
                0 <= i < r@.len() ==> from_pool_above(pool@, threshold, k as int, #[trigger] r@[i]),
            forall|i: int, j: int| 0 <= i < j < r@.len() ==> r@[i] != r@[j],
            forall|k1: int|
                0 <= k1 < k ==> (above_threshold(#[trigger] pool@[k1], threshold) ==> r@.contains(
                    pool@[k1].0,
                )),
    {
        let p = pool[k];
        if cross_mul(p.1, threshold.1) > cross_mul(threshold.0, p.2) {
            let ghost pre = r@;
            r.push(p.0);
            proof {
                assert(above_threshold(pool@[k as int], threshold));
                assert(r@[r@.len() - 1] == pool@[k as int].0);
                assert forall|i: int, j: int| 0 <= i < j < r@.len() implies r@[i] != r@[j] by {
                    if j == r@.len() - 1 {
                        assert(r@[i] == pre[i]);
                        assert(from_pool_above(pool@, threshold, k as int, pre[i]));
                        let k1 = choose|k1: int|
                            0 <= k1 < k as int <= pool@.len() && (#[trigger] pool@[k1]).0 == pre[i]
                                && above_threshold(pool@[k1], threshold);
                        assert(pool@[k1].0 != pool@[k as int].0);
                    }
                }
                assert forall|i: int| 0 <= i < r@.len() implies from_pool_above(
                    pool@,
                    threshold,
                    k + 1,
                    #[trigger] r@[i],
                ) by {
                    if i < pre.len() {
                        assert(r@[i] == pre[i]);
                        let k1 = choose|k1: int|
                            0 <= k1 < k && (#[trigger] pool@[k1]).0 == pre[i] && above_threshold(
                                pool@[k1],
                                threshold,
                            );
                        assert(from_pool_above(pool@, threshold, k + 1, r@[i]));
                    }
                }
                assert forall|k1: int|
                    0 <= k1 < k + 1 && above_threshold(#[trigger] pool@[k1], threshold) implies r@.contains(
                    pool@[k1].0,
                ) by {
                    if k1 < k {
                        let i = choose|i: int| 0 <= i < pre.len() && pre[i] == pool@[k1].0;
                        assert(r@[i] == pool@[k1].0);
                    } else {
                        assert(r@[r@.len() - 1] == pool@[k1].0);
                    }
                }
            }
        } else {
            proof {
                assert forall|i: int| 0 <= i < r@.len() implies from_pool_above(
                    pool@,
                    threshold,
                    k + 1,
                    #[trigger] r@[i],
                ) by {
                    let k1 = choose|k1: int|
                        0 <= k1 < k && (#[trigger] pool@[k1]).0 == r@[i] && above_threshold(
                            pool@[k1],
                            threshold,
                        );
                    assert(from_pool_above(pool@, threshold, k + 1, r@[i]));
                }
            }
        }
    }

    proof {
        let tt = threshold.0;
        let tc = threshold.1;
        // a non-empty pool certifies a qualifying entry
        assert(slow_src_upto(sv, pool@[0], sv.len() as int));
        let e0 = choose|i: int|
            0 <= i < sv.len() && (#[trigger] sv[i]).key == pool@[0].0 && sv[i].total_time_ms
                == pool@[0].1 && sv[i].correct_attempts == pool@[0].2 && slow_eligible(sv[i]);
        assert(slow_eligible(sv[e0]));
        // the sorted sample list witnesses the percentile threshold: it
        // holds the same multiset as the qualifying entries' samples
        assert(pre_times =~= pool_samples(pool@));
        assert(pre_times == eligible_samples(sv));
        assert(times@.len() == eligible_samples(sv).len());
        assert(is_sorted_samples(sv, times@));
        assert(idx as int == percentile_index(times@.len() as int, percentile));
        assert((tt, tc) == times@[percentile_index(times@.len() as int, percentile)]);
        // the main equivalence, entry by entry
        assert forall|j: int|
            0 <= j < sv.len() && slow_eligible(sv[j]) implies (r@.contains(sv[j].key) <==> (
        sv[j].total_time_ms as nat) * (tc as nat) > (tt as nat) * (
        sv[j].correct_attempts as nat)) by {
            assert(pool_has_key(pool@, sv[j].key));
            let k = choose|k: int| 0 <= k < pool@.len() && (#[trigger] pool@[k]).0 == sv[j].key;
            assert(slow_src_upto(sv, pool@[k], sv.len() as int));
            let i2 = choose|i2: int|
                0 <= i2 < sv.len() && (#[trigger] sv[i2]).key == pool@[k].0 && sv[i2].total_time_ms
                    == pool@[k].1 && sv[i2].correct_attempts == pool@[k].2 && slow_eligible(sv[i2]);
            assert(i2 == j);
            if r@.contains(sv[j].key) {
                let i = choose|i: int| 0 <= i < r@.len() && r@[i] == sv[j].key;
                assert(from_pool_above(pool@, threshold, pool@.len() as int, r@[i]));
                let k1 = choose|k1: int|
                    0 <= k1 < pool@.len() && (#[trigger] pool@[k1]).0 == r@[i] && above_threshold(
                        pool@[k1],
                        threshold,
                    );
                assert(k1 == k);
            } else {
                if above_threshold(pool@[k], threshold) {
                    assert(r@.contains(pool@[k].0));
                }
            }
        }
        // soundness of each returned character
        assert forall|i: int| 0 <= i < r@.len() implies slow_listed(sv, r@[i]) by {
            let k = choose|k1: int|
                0 <= k1 < pool@.len() && (#[trigger] pool@[k1]).0 == r@[i] && above_threshold(
                    pool@[k1],
                    threshold,
                );
            assert(slow_src_upto(sv, pool@[k], sv.len() as int));
        }
        assert(slow_result_ok(sv, r@, tt, tc, percentile));
    }
    r
}

} // impl WeaknessDetector

/// Ascending comparison of two latency samples, as rationals.
pub open spec fn avg_leq(a: (u64, u64), b: (u64, u64)) -> bool {
    (a.0 as nat) * (b.1 as nat) <= (b.0 as nat) * (a.1 as nat)
}

/// `avg_leq` is transitive once the sample counts are positive.
proof fn lemma_avg_leq_trans(a: (u64, u64), b: (u64, u64), c: (u64, u64))
    requires
        a.1 > 0,
        b.1 > 0,
        c.1 > 0,
        avg_leq(a, b),
        avg_leq(b, c),
    ensures
        avg_leq(a, c),
{
    assert((a.0 as nat) * (c.1 as nat) <= (c.0 as nat) * (a.1 as nat)) by (nonlinear_arith)
        requires
            (a.0 as nat) * (b.1 as nat) <= (b.0 as nat) * (a.1 as nat),
            (b.0 as nat) * (c.1 as nat) <= (c.0 as nat) * (b.1 as nat),
            (a.1 as nat) > 0,
            (b.1 as nat) > 0,
            (c.1 as nat) > 0,
    ;
}

/// Selection sort of latency samples by average, ascending. The sorted
/// list holds exactly the same samples.
#[verifier::rlimit(50)]
fn sort_by_average(v: &mut Vec<(u64, u64)>)
    requires
        forall|i: int| 0 <= i < old(v)@.len() ==> (#[trigger] old(v)@[i]).1 > 0,
    ensures
        final(v)@.len() == old(v)@.len(),
        final(v)@.to_multiset() == old(v)@.to_multiset(),
        forall|i: int, j: int| 0 <= i < j < final(v)@.len() ==> avg_leq(final(v)@[i], final(v)@[j]),
{
    broadcast use vstd::seq_lib::group_to_multiset_ensures;
    broadcast use vstd::seq_lib::to_multiset_update;

    let n = v.len();
    for i in 0..n
        invariant
            n == v@.len(),
            v@.to_multiset() == old(v)@.to_multiset(),
            forall|a: int| 0 <= a < n ==> (#[trigger] v@[a]).1 > 0,
            forall|a: int, b: int| 0 <= a < b < i ==> avg_leq(v@[a], v@[b]),
            forall|a: int, b: int| 0 <= a < i && i <= b < n ==> avg_leq(v@[a], v@[b]),
    {
        let mut m: usize = i;
        for k in (i + 1)..n
            invariant
                n == v@.len(),
                i <= m < n,
                i < n,
                forall|a: int| 0 <= a < n ==> (#[trigger] v@[a]).1 > 0,
                forall|j: int| i <= j < k ==> avg_leq(v@[m as int], v@[j]),
        {
            let a = v[m];
            let b = v[k];
            let ghost old_m = m as int;
            let swap = cross_mul(b.0, a.1) < cross_mul(a.0, b.1);
            if swap {
                m = k;
            }
            proof {
                assert forall|j: int| i <= j < k + 1 implies avg_leq(v@[m as int], v@[j]) by {
                    if swap {
                        assert(avg_leq(v@[k as int], v@[old_m]));
                        if j < k {
                            lemma_avg_leq_trans(v@[k as int], v@[old_m], v@[j]);
                        }
                    }
                }
            }
        }
        if m != i {
            let ghost pre = v@;
            let a = v[i];
            let b = v[m];
            v[i] = b;
            v[m] = a;
            proof {
                broadcast use vstd::multiset::group_multiset_axioms;
                broadcast use vstd::seq_lib::group_to_multiset_ensures;

                pre.to_multiset_ensures();
                assert(pre[i as int] == a && pre[m as int] == b);
                assert(pre.contains(a));
                assert(pre.contains(b));
                let mid = pre.update(i as int, b);
                assert(v@ == mid.update(m as int, a));
                vstd::seq_lib::to_multiset_update(pre, i as int, b);
                vstd::seq_lib::to_multiset_update(mid, m as int, a);
                assert(mid[m as int] == pre[m as int]);
                assert forall|x: (u64, u64)| v@.to_multiset().count(x) == pre.to_multiset().count(
                    x,
                ) by {
                    assert(pre.to_multiset().count(pre[i as int]) > 0);
                    assert(pre.to_multiset().count(pre[m as int]) > 0);
                }
                assert(v@.to_multiset() =~= pre.to_multiset());
            }
        }
    }
}

} // verus!
