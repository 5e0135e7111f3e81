//! The lesson recommendation rule: a small decision procedure over the
//! session count and the weakness queries.

use vstd::prelude::*;
use vstd::string::StringExecFns;

use crate::adaptive::{weak_bigram_eligible, weak_eligible, WeaknessDetector};
use crate::stats::AdaptiveAnalytics;
use crate::util::push_char;

verus! {

/// The kind of lesson to offer next.
#[derive(Debug, Clone, Copy, PartialEq, Eq, Structural)]
pub enum NextLesson {
    /// Build accuracy on fundamentals first.
    Foundational,
    /// Drill the weakest characters.
    FocusedCharacters,
    /// Drill the weakest character pairs.
    FocusedPairs,
    /// Move on to new symbols and content.
    SkillExpansion,
}

/// One recommendation: the lesson to offer, a human-readable reason, and a
/// confidence in hundredths (0 ..= 100).
#[derive(Debug, Clone, PartialEq)]
pub struct Recommendation {
    pub lesson: NextLesson,
    pub reason: String,
    pub confidence: u64,
}

/// Some tracked character is weak under the 80% threshold.
pub open spec fn has_weak_key(a: &AdaptiveAnalytics) -> bool {
    exists|j: int|
        0 <= j < a.key_stats@.len() && weak_eligible(#[trigger] a.key_stats@[j], 80)
}

/// Some tracked pair is weak.
pub open spec fn has_weak_bigram(a: &AdaptiveAnalytics) -> bool {
    exists|j: int|
        0 <= j < a.bigram_stats@.len() && weak_bigram_eligible(#[trigger] a.bigram_stats@[j])
}

/// The characters of `ws`, each followed by a space.
pub open spec fn chars_spaced(ws: Seq<char>) -> Seq<char>
    decreases ws.len(),
{
    if ws.len() == 0 {
        Seq::empty()
    } else {
        chars_spaced(ws.drop_last()) + seq![ws.last(), ' ']
    }
}

/// The pairs of `ws`, each written out and followed by a space.
pub open spec fn pairs_spaced(ws: Seq<crate::analytics::CharPair>) -> Seq<char>
    decreases ws.len(),
{
    if ws.len() == 0 {
        Seq::empty()
    } else {
        pairs_spaced(ws.drop_last()) + seq![ws.last().first, ws.last().second, ' ']
    }
}

/// `ws` is a valid weak-character listing of `a`: non-empty, distinct,
/// every member weak under the 80% threshold, and complete whenever it
/// holds fewer than 5 characters.
pub open spec fn weak_key_listing(a: &AdaptiveAnalytics, ws: Seq<char>) -> bool {
    &&& 0 < ws.len() <= 5
    &&& forall|i: int, j: int| 0 <= i < j < ws.len() ==> ws[i] != ws[j]
    &&& forall|i: int|
        0 <= i < ws.len() ==> crate::adaptive::weak_listed(a.key_stats@, 80, #[trigger] ws[i])
    &&& forall|j: int|
        0 <= j < a.key_stats@.len() && weak_eligible(#[trigger] a.key_stats@[j], 80) ==> (ws.len()
            == 5 || ws.contains(a.key_stats@[j].key))
}

/// `ws` is a valid weak-pair listing of `a`, in the same sense.
pub open spec fn weak_bigram_listing(
    a: &AdaptiveAnalytics,
    ws: Seq<crate::analytics::CharPair>,
) -> bool {
    &&& 0 < ws.len() <= 5
    &&& forall|i: int, j: int| 0 <= i < j < ws.len() ==> ws[i] != ws[j]
    &&& forall|i: int|
        0 <= i < ws.len() ==> crate::adaptive::weak_bigram_listed(a.bigram_stats@, #[trigger] ws[i])
    &&& forall|j: int|
        0 <= j < a.bigram_stats@.len() && weak_bigram_eligible(#[trigger] a.bigram_stats@[j])
            ==> (ws.len() == 5 || ws.contains(a.bigram_stats@[j].bigram))
}

/// Exactly one recommendation, never an error, chosen in fixed order:
/// fewer than 10 merged sessions always yields the foundational lesson at
/// confidence 0.90; then weak characters (0.85, the reason naming them),
/// weak pairs (0.80, likewise), and finally skill expansion (0.75).
pub fn recommend_next_lesson(analytics: &AdaptiveAnalytics) -> (r: Recommendation)
    requires
        analytics.wf(),
    ensures
        r.confidence <= 100,
        r.reason@.len() > 0,
        analytics.total_sessions < 10 ==> r.lesson == NextLesson::Foundational && r.confidence
            == 90 && r.reason@ == "Build accuracy on fundamentals"@,
        analytics.total_sessions >= 10 && has_weak_key(analytics) ==> r.lesson
            == NextLesson::FocusedCharacters && r.confidence == 85 && (exists|ws: Seq<char>|
            #[trigger] weak_key_listing(analytics, ws) && r.reason@
                == "Focus on weak characters: "@ + chars_spaced(ws)),
        analytics.total_sessions >= 10 && !has_weak_key(analytics) && has_weak_bigram(analytics)
            ==> r.lesson == NextLesson::FocusedPairs && r.confidence == 80 && (exists|
            ws: Seq<crate::analytics::CharPair>,
        |
            #[trigger] weak_bigram_listing(analytics, ws) && r.reason@
                == "Focus on weak character pairs: "@ + pairs_spaced(ws)),
        analytics.total_sessions >= 10 && !has_weak_key(analytics) && !has_weak_bigram(analytics)
            ==> r.lesson == NextLesson::SkillExpansion && r.confidence == 75 && r.reason@
            == "Expand your skills with new symbols and content"@,
{
    proof {
        reveal_strlit("Build accuracy on fundamentals");
        reveal_strlit("Focus on weak characters: ");
        reveal_strlit("Focus on weak character pairs: ");
        reveal_strlit("Expand your skills with new symbols and content");
    }
    if analytics.total_sessions < 10 {
        return Recommendation {
            lesson: NextLesson::Foundational,
            reason: String::from_str("Build accuracy on fundamentals"),
            confidence: 90,
        };
    }

    let weak_keys = WeaknessDetector::identify_weak_keys(analytics, 80);
    if weak_keys.len() > 0 {
        proof {
            assert(crate::adaptive::weak_listed(analytics.key_stats@, 80, weak_keys@[0]));
        }
        let mut reason = String::from_str("Focus on weak characters: ");
        let n = weak_keys.len();
        for i in 0..n
            invariant
                n == weak_keys@.len(),
                reason@ == "Focus on weak characters: "@ + chars_spaced(weak_keys@.take(i as int)),
        {
            push_char(&mut reason, weak_keys[i]);
            push_char(&mut reason, ' ');
            proof {
                assert(weak_keys@.take(i + 1).drop_last() =~= weak_keys@.take(i as int));
                assert(weak_keys@.take(i + 1).last() == weak_keys@[i as int]);
                assert(reason@ =~= "Focus on weak characters: "@ + chars_spaced(
                    weak_keys@.take(i + 1),
                ));
            }
        }
        proof {
            assert(weak_keys@.take(n as int) =~= weak_keys@);
            assert(weak_key_listing(analytics, weak_keys@));
            reveal_strlit("Focus on weak characters: ");
        }
        return Recommendation {
            lesson: NextLesson::FocusedCharacters,
            reason,
            confidence: 85,
        };
    }
    proof {
        // an empty result means no character qualifies
        assert forall|j: int| 0 <= j < analytics.key_stats@.len() implies !weak_eligible(
            #[trigger] analytics.key_stats@[j],
            80,
        ) by {
            if weak_eligible(analytics.key_stats@[j], 80) {
                assert(weak_keys@.contains(analytics.key_stats@[j].key));
            }
        }
    }

    let weak_bigrams = WeaknessDetector::identify_weak_bigrams(analytics);
    if weak_bigrams.len() > 0 {
        proof {
            assert(crate::adaptive::weak_bigram_listed(analytics.bigram_stats@, weak_bigrams@[0]));
        }
        let mut reason = String::from_str("Focus on weak character pairs: ");
        let n = weak_bigrams.len();
        for i in 0..n
            invariant
                n == weak_bigrams@.len(),
                reason@ == "Focus on weak character pairs: "@ + pairs_spaced(
                    weak_bigrams@.take(i as int),
                ),
        {
            let pair = weak_bigrams[i];
            push_char(&mut reason, pair.first);
            push_char(&mut reason, pair.second);
            push_char(&mut reason, ' ');
            proof {
                assert(weak_bigrams@.take(i + 1).drop_last() =~= weak_bigrams@.take(i as int));
                assert(weak_bigrams@.take(i + 1).last() == weak_bigrams@[i as int]);
                assert(reason@ =~= "Focus on weak character pairs: "@ + pairs_spaced(
                    weak_bigrams@.take(i + 1),
                ));
            }
        }
        proof {
            assert(weak_bigrams@.take(n as int) =~= weak_bigrams@);
            assert(weak_bigram_listing(analytics, weak_bigrams@));
            reveal_strlit("Focus on weak character pairs: ");
        }
        return Recommendation {
            lesson: NextLesson::FocusedPairs,
            reason,
            confidence: 80,
        };
    }
    proof {
        assert forall|j: int| 0 <= j < analytics.bigram_stats@.len() implies !weak_bigram_eligible(
            #[trigger] analytics.bigram_stats@[j],
        ) by {
            if weak_bigram_eligible(analytics.bigram_stats@[j]) {
                assert(weak_bigrams@.contains(analytics.bigram_stats@[j].bigram));
            }
        }
    }

    Recommendation {
        lesson: NextLesson::SkillExpansion,
        reason: String::from_str("Expand your skills with new symbols and content"),
        confidence: 75,
    }
}

} // verus!
