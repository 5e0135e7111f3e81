//! Weighted practice-text generation biased toward weak areas.
//!
//! The generator never promises which characters randomness will pick;
//! what is proved is structural: the result has exactly the requested
//! length; without weaknesses, or without any tracked character of ten
//! attempts, it is the balanced fallback phrase; with a weak character
//! it is built from spaces and tracked characters and opens with one.

use vstd::prelude::*;
use vstd::string::StrSliceExecFns;
use vstd::string::StringExecFns;

use crate::adaptive::{slow_eligible, slow_listed, weak_eligible, weak_listed, WeaknessDetector};
use crate::analytics::{spec_mastery, KeyStats, MasteryLevel};
use crate::stats::AdaptiveAnalytics;
use crate::util::{draw_entropy, push_char};

verus! {

/// The balanced fallback phrase.
pub open spec fn fallback_phrase() -> Seq<char> {
    "The quick brown fox jumps over the lazy dog"@
}

/// The fallback phrase cycled out to `length` characters.
pub open spec fn spec_fallback(length: int) -> Seq<char> {
    Seq::new(length as nat, |i: int| fallback_phrase()[i % fallback_phrase().len() as int])
}

/// `c` is a tracked character with at least 10 recorded attempts.
pub open spec fn tracked_with_data(s: Seq<KeyStats>, c: char) -> bool {
    exists|j: int| 0 <= j < s.len() && (#[trigger] s[j]).key == c && s[j].total_attempts >= 10
}

/// `c` is the key of one of the first `hi` entries, with at least 10
/// attempts, classifying at `level`.
pub open spec fn bucket_member_upto(
    s: Seq<KeyStats>,
    level: MasteryLevel,
    c: char,
    hi: int,
) -> bool {
    exists|j: int|
        0 <= j < hi <= s.len() && (#[trigger] s[j]).key == c && s[j].total_attempts >= 10
            && spec_mastery(s[j].total_attempts as nat, s[j].correct_attempts as nat) == level
}

/// `c` is tracked, has at least 10 attempts, and classifies at `level`.
pub open spec fn bucket_member(s: Seq<KeyStats>, level: MasteryLevel, c: char) -> bool {
    bucket_member_upto(s, level, c, s.len() as int)
}

/// Adaptive lesson generator that creates personalized content.
pub struct AdaptiveLessonGenerator<'a> {
    analytics: &'a AdaptiveAnalytics,
}

impl<'a> AdaptiveLessonGenerator<'a> {
    pub closed spec fn wf(&self) -> bool {
        self.analytics.wf()
    }

    pub closed spec fn stats(&self) -> Seq<KeyStats> {
        self.analytics.key_stats@
    }

    pub fn new(analytics: &'a AdaptiveAnalytics) -> (r: Self)
        requires
            analytics.wf(),
        ensures
            r.wf(),
            r.stats() == analytics.key_stats@,
    {
        Self { analytics }
    }

    /// Generate adaptive practice content of exactly `length` characters.
    ///
    /// With no weak and no slow characters, or with no tracked character
    /// of at least 10 attempts, the result is the balanced fallback
    /// phrase, cycled. With a weak character present the result is drawn
    /// from spaces and tracked characters with at least 10 attempts, and
    /// it opens with such a character, never with the fallback phrase.
    pub fn generate(&self, length: usize) -> (r: String)
        requires
            self.wf(),
        ensures
            r@.len() == length,
            ((forall|j: int| 0 <= j < self.stats().len() ==> !weak_eligible(
                #[trigger] self.stats()[j],
                80,
            )) && (forall|j: int| 0 <= j < self.stats().len() ==> !slow_eligible(
                #[trigger] self.stats()[j],
            ))) ==> r@ == spec_fallback(length as int),
            (forall|j: int|
                0 <= j < self.stats().len() ==> (#[trigger] self.stats()[j]).total_attempts
                    < 10) ==> r@ == spec_fallback(length as int),
            (exists|j: int|
                0 <= j < self.stats().len() && weak_eligible(#[trigger] self.stats()[j], 80))
                ==> ((forall|i: int|
                0 <= i < r@.len() ==> r@[i] == ' ' || tracked_with_data(
                    self.stats(),
                    #[trigger] r@[i],
                )) && (length > 0 ==> tracked_with_data(self.stats(), r@[0]))),
            r@ == spec_fallback(length as int) || ((forall|i: int|
                0 <= i < r@.len() ==> r@[i] == ' ' || tracked_with_data(
                    self.stats(),
                    #[trigger] r@[i],
                )) && (length > 0 ==> tracked_with_data(self.stats(), r@[0]))),
    {
        let weak_keys = WeaknessDetector::identify_weak_keys(self.analytics, 80);
        let slow_keys = WeaknessDetector::identify_slow_keys(self.analytics, 75);

        if weak_keys.len() == 0 && slow_keys.len() == 0 {
            proof {
                // an empty weak list certifies that no character is weak
                assert forall|j: int| 0 <= j < self.stats().len() implies !weak_eligible(
                    #[trigger] self.stats()[j],
                    80,
                ) by {
                    if weak_eligible(self.stats()[j], 80) {
                        assert(weak_keys@.contains(self.stats()[j].key));
                    }
                }
            }
            return self.generate_balanced_practice(length);
        }

        proof {
            // a non-empty weakness list certifies an eligible character,
            // so the all-quiet premise of the fallback clause is false
            if weak_keys@.len() > 0 {
                assert(weak_listed(self.stats(), 80, weak_keys@[0]));
            } else {
                assert(slow_listed(self.stats(), slow_keys@[0]));
            }
        }
        self.generate_weighted_content(length)
    }

    /// Weighted generation: classify the tracked characters into mastery
    /// buckets, then draw tokens with the 60/30/10 cumulative thresholds,
    /// the mastered bucket serving as final fallback.
    fn generate_weighted_content(&self, length: usize) -> (r: String)
        requires
            self.wf(),
        ensures
            r@.len() == length,
            (forall|j: int|
                0 <= j < self.stats().len() ==> (#[trigger] self.stats()[j]).total_attempts
                    < 10) ==> r@ == spec_fallback(length as int),
            (exists|j: int|
                0 <= j < self.stats().len() && (#[trigger] self.stats()[j]).total_attempts
                    >= 10) ==> ((forall|i: int|
                0 <= i < r@.len() ==> r@[i] == ' ' || tracked_with_data(
                    self.stats(),
                    #[trigger] r@[i],
                )) && (length > 0 ==> tracked_with_data(self.stats(), r@[0]))),
            r@ == spec_fallback(length as int) || ((forall|i: int|
                0 <= i < r@.len() ==> r@[i] == ' ' || tracked_with_data(
                    self.stats(),
                    #[trigger] r@[i],
                )) && (length > 0 ==> tracked_with_data(self.stats(), r@[0]))),
    {
        let beginner_keys = self.get_keys_by_mastery(MasteryLevel::Beginner);
        let learning_keys = self.get_keys_by_mastery(MasteryLevel::Learning);
        let proficient_keys = self.get_keys_by_mastery(MasteryLevel::Proficient);
        let mastered_keys = self.get_keys_by_mastery(MasteryLevel::Mastered);

        if beginner_keys.len() == 0 && learning_keys.len() == 0 && proficient_keys.len() == 0
            && mastered_keys.len() == 0 {
            proof {
                // empty buckets certify that no tracked character has
                // enough data: each such character sits in the bucket of
                // its own mastery level
                assert forall|j: int| 0 <= j < self.stats().len() implies (
                #[trigger] self.stats()[j]).total_attempts < 10 by {
                    let ks = self.stats()[j];
                    if ks.total_attempts >= 10 {
                        let lv = spec_mastery(
                            ks.total_attempts as nat,
                            ks.correct_attempts as nat,
                        );
                        if lv == MasteryLevel::Beginner {
                            assert(beginner_keys@.contains(ks.key));
                        } else if lv == MasteryLevel::Learning {
                            assert(learning_keys@.contains(ks.key));
                        } else if lv == MasteryLevel::Proficient {
                            assert(proficient_keys@.contains(ks.key));
                        } else {
                            assert(mastered_keys@.contains(ks.key));
                        }
                    }
                }
            }
            return self.generate_balanced_practice(length);
        }

        proof {
            assert forall|i: int| 0 <= i < beginner_keys@.len() implies tracked_with_data(
                self.stats(),
                #[trigger] beginner_keys@[i],
            ) by {
                assert(bucket_member(self.stats(), MasteryLevel::Beginner, beginner_keys@[i]));
            }
            assert forall|i: int| 0 <= i < learning_keys@.len() implies tracked_with_data(
                self.stats(),
                #[trigger] learning_keys@[i],
            ) by {
                assert(bucket_member(self.stats(), MasteryLevel::Learning, learning_keys@[i]));
            }
            assert forall|i: int| 0 <= i < proficient_keys@.len() implies tracked_with_data(
                self.stats(),
                #[trigger] proficient_keys@[i],
            ) by {
                assert(bucket_member(self.stats(), MasteryLevel::Proficient, proficient_keys@[i]));
            }
            assert forall|i: int| 0 <= i < mastered_keys@.len() implies tracked_with_data(
                self.stats(),
                #[trigger] mastered_keys@[i],
            ) by {
                assert(bucket_member(self.stats(), MasteryLevel::Mastered, mastered_keys@[i]));
            }
        }

        let mut result = String::new();
        let mut built: usize = 0;
        while built < length
            invariant
                self.wf(),
                built <= result@.len(),
                built <= length,
                beginner_keys@.len() + learning_keys@.len() + proficient_keys@.len()
                    + mastered_keys@.len() > 0,
                forall|i: int|
                    0 <= i < beginner_keys@.len() ==> tracked_with_data(
                        self.stats(),
                        #[trigger] beginner_keys@[i],
                    ),
                forall|i: int|
                    0 <= i < learning_keys@.len() ==> tracked_with_data(
                        self.stats(),
                        #[trigger] learning_keys@[i],
                    ),
                forall|i: int|
                    0 <= i < proficient_keys@.len() ==> tracked_with_data(
                        self.stats(),
                        #[trigger] proficient_keys@[i],
                    ),
                forall|i: int|
                    0 <= i < mastered_keys@.len() ==> tracked_with_data(
                        self.stats(),
                        #[trigger] mastered_keys@[i],
                    ),
                forall|i: int|
                    0 <= i < result@.len() ==> result@[i] == ' ' || tracked_with_data(
                        self.stats(),
                        #[trigger] result@[i],
                    ),
                result@.len() > 0 ==> tracked_with_data(self.stats(), result@[0]),
            decreases length - built,
        {
            if built > 0 {
                push_char(&mut result, ' ');
                built = built + 1;
            }

            if built < length {
                // select the bucket whose cumulative range contains the
                // draw; an empty bucket falls back in the fixed order
                // beginner, learning, proficient, mastered
                let draw = draw_entropy() % 100;
                let keys = if draw < 60 && beginner_keys.len() > 0 {
                    &beginner_keys
                } else if 60 <= draw && draw < 90 && learning_keys.len() > 0 {
                    &learning_keys
                } else if 90 <= draw && proficient_keys.len() > 0 {
                    &proficient_keys
                } else if beginner_keys.len() > 0 {
                    &beginner_keys
                } else if learning_keys.len() > 0 {
                    &learning_keys
                } else if proficient_keys.len() > 0 {
                    &proficient_keys
                } else {
                    &mastered_keys
                };
                let ghost pre_result = result@;
                let added = self.emit_pattern(keys, &mut result);
                proof {
                    // a token never opens with the separator, so the very
                    // first character of the content is a bucket key
                    if pre_result.len() == 0 {
                        assert(keys@.contains(result@[0]));
                        let ki = choose|ki: int| 0 <= ki < keys@.len() && keys@[ki] == result@[0];
                    }
                }
                if added >= length - built {
                    built = length;
                } else {
                    built = built + added;
                }
            }
        }

        // hard character cut down to the requested length
        let cut = result.as_str().substring_char(0, length);
        let r = String::from_str(cut);
        proof {
            assert forall|i: int| 0 <= i < r@.len() implies r@[i] == ' ' || tracked_with_data(
                self.stats(),
                #[trigger] r@[i],
            ) by {
                assert(r@[i] == result@[i]);
            }
            if length > 0 {
                assert(r@[0] == result@[0]);
            }
            // a non-empty bucket certifies a tracked character with data
            if beginner_keys@.len() > 0 {
                assert(bucket_member(self.stats(), MasteryLevel::Beginner, beginner_keys@[0]));
            } else if learning_keys@.len() > 0 {
                assert(bucket_member(self.stats(), MasteryLevel::Learning, learning_keys@[0]));
            } else if proficient_keys@.len() > 0 {
                assert(bucket_member(self.stats(), MasteryLevel::Proficient, proficient_keys@[0]));
            } else {
                assert(bucket_member(self.stats(), MasteryLevel::Mastered, mastered_keys@[0]));
            }
        }
        r
    }

    /// Append one token built from `keys`: a doubled character, an
    /// alternating pair, or a triplet, degrading gracefully when the
    /// bucket is small. Returns how many characters were appended.
    ///
    /// Whatever the entropy draws pick, the token is 2, 3 or 5 characters
    /// long; every appended character is one of the bucket's keys, except
    /// the single separating space in the middle of a 5-character token.
    fn emit_pattern(&self, keys: &Vec<char>, result: &mut String) -> (added: usize)
        requires
            self.wf(),
            keys@.len() > 0,
            forall|i: int|
                0 <= i < keys@.len() ==> tracked_with_data(self.stats(), #[trigger] keys@[i]),
            forall|i: int|
                0 <= i < old(result)@.len() ==> old(result)@[i] == ' ' || tracked_with_data(
                    self.stats(),
                    #[trigger] old(result)@[i],
                ),
        ensures
            added == 2 || added == 3 || added == 5,
            final(result)@.len() == old(result)@.len() + added,
            forall|i: int| 0 <= i < old(result)@.len() ==> final(result)@[i] == old(result)@[i],
            added == 5 ==> final(result)@[old(result)@.len() as int + 2] == ' ',
            forall|i: int|
                old(result)@.len() <= i < final(result)@.len() && !(added == 5 && i == old(
                    result,
                )@.len() + 2) ==> keys@.contains(#[trigger] final(result)@[i]),
            forall|i: int|
                0 <= i < final(result)@.len() ==> final(result)@[i] == ' ' || tracked_with_data(
                    self.stats(),
                    #[trigger] final(result)@[i],
                ),
    {
        let n = keys.len();
        let shape = draw_entropy() % 3;
        if shape == 0 {
            // repetition: "cc" or "cc cc"
            let c = keys[(draw_entropy() as usize) % n];
            push_char(result, c);
            push_char(result, c);
            if draw_entropy() % 2 == 0 {
                push_char(result, ' ');
                push_char(result, c);
                push_char(result, c);
                5
            } else {
                2
            }
        } else if shape == 1 {
            // alternation of two independently drawn characters
            if n >= 2 {
                let k1 = keys[(draw_entropy() as usize) % n];
                let k2 = keys[(draw_entropy() as usize) % n];
                push_char(result, k1);
                push_char(result, k2);
                2
            } else {
                let c = keys[0];
                push_char(result, c);
                push_char(result, c);
                2
            }
        } else {
            // triplet, degrading to a pair or a doubled character
            if n >= 3 {
                let k1 = keys[(draw_entropy() as usize) % n];
                let k2 = keys[(draw_entropy() as usize) % n];
                let k3 = keys[(draw_entropy() as usize) % n];
                push_char(result, k1);
                push_char(result, k2);
                push_char(result, k3);
                3
            } else if n >= 2 {
                let k1 = keys[(draw_entropy() as usize) % n];
                let k2 = keys[(draw_entropy() as usize) % n];
                push_char(result, k1);
                push_char(result, k2);
                2
            } else {
                let c = keys[0];
                push_char(result, c);
                push_char(result, c);
                2
            }
        }
    }

    /// The tracked characters with at least 10 attempts classified at
    /// `level`, each exactly once.
    pub fn get_keys_by_mastery(&self, level: MasteryLevel) -> (r: Vec<char>)
        requires
            self.wf(),
        ensures
            forall|i: int| 0 <= i < r@.len() ==> bucket_member(self.stats(), level, #[trigger] r@[i]),
            forall|i: int, j: int| 0 <= i < j < r@.len() ==> r@[i] != r@[j],
            forall|j: int|
                0 <= j < self.stats().len() && (#[trigger] self.stats()[j]).total_attempts >= 10
                    && spec_mastery(
                    self.stats()[j].total_attempts as nat,
                    self.stats()[j].correct_attempts as nat,
                ) == level ==> r@.contains(self.stats()[j].key),
    {
        let ghost sv = self.stats();
        proof {
            assert forall|i: int, j: int| 0 <= i < j < sv.len() implies sv[i].key != sv[j].key by {
                assert(crate::stats::ks_pairs(sv)[i].0 == sv[i].key);
                assert(crate::stats::ks_pairs(sv)[j].0 == sv[j].key);
            }
        }
        let n = self.analytics.key_stats.len();
        let mut r: Vec<char> = Vec::new();
        for j in 0..n
            invariant
                n == sv.len(),
                sv == self.analytics.key_stats@,
                sv == self.stats(),
                forall|i: int, j2: int| 0 <= i < j2 < sv.len() ==> sv[i].key != sv[j2].key,
                forall|i: int|
                    0 <= i < r@.len() ==> bucket_member_upto(sv, level, #[trigger] r@[i], j as int),
                forall|i: int, j2: int| 0 <= i < j2 < r@.len() ==> r@[i] != r@[j2],
                forall|i: int|
                    0 <= i < j && (#[trigger] sv[i]).total_attempts >= 10 && spec_mastery(
                        sv[i].total_attempts as nat,
                        sv[i].correct_attempts as nat,
                    ) == level ==> r@.contains(sv[i].key),
        {
            let ks = &self.analytics.key_stats[j];
            if ks.total_attempts >= 10 && MasteryLevel::from_stats(ks) == level {
                let ghost pre = r@;
                proof {
                    assert(bucket_member_upto(sv, level, sv[j as int].key, j + 1));
                    assert forall|i: int| 0 <= i < pre.len() implies pre[i] != sv[j as int].key by {
                        let e = choose|e: int|
                            0 <= e < j && (#[trigger] sv[e]).key == pre[i] && sv[e].total_attempts
                                >= 10 && spec_mastery(
                                sv[e].total_attempts as nat,
                                sv[e].correct_attempts as nat,
                            ) == level;
                        assert(sv[e].key != sv[j as int].key);
                    }
                }
                r.push(ks.key);
                proof {
                    assert forall|i: int| 0 <= i < r@.len() implies bucket_member_upto(
                        sv,
                        level,
                        #[trigger] r@[i],
                        j + 1,
                    ) by {
                        if i < pre.len() {
                            assert(r@[i] == pre[i]);
                            let e = choose|e: int|
                                0 <= e < j && (#[trigger] sv[e]).key == pre[i]
                                    && sv[e].total_attempts >= 10 && spec_mastery(
                                    sv[e].total_attempts as nat,
                                    sv[e].correct_attempts as nat,
                                ) == level;
                            assert(bucket_member_upto(sv, level, r@[i], j + 1));
                        } else {
                            assert(r@[i] == sv[j as int].key);
                        }
                    }
                    assert forall|i: int|
                        0 <= i < j + 1 && (#[trigger] sv[i]).total_attempts >= 10 && spec_mastery(
                            sv[i].total_attempts as nat,
                            sv[i].correct_attempts as nat,
                        ) == level implies r@.contains(sv[i].key) by {
                        if i < j {
                            let idx = choose|idx: int| 0 <= idx < pre.len() && pre[idx] == sv[i].key;
                            assert(r@[idx] == sv[i].key);
                        } else {
                            assert(r@[r@.len() - 1] == sv[i].key);
                        }
                    }
                }
            }
        }
        r
    }

    /// The balanced fallback: the fixed phrase cycled to exactly `length`
    /// characters.
    fn generate_balanced_practice(&self, length: usize) -> (r: String)
        ensures
            r@ == spec_fallback(length as int),
            r@.len() == length,
    {
        let phrase = "The quick brown fox jumps over the lazy dog";
        proof {
            reveal_strlit("The quick brown fox jumps over the lazy dog");
            assert(phrase@.len() == 43);
        }
        let mut r = String::new();
        for i in 0..length
            invariant
                phrase@ == fallback_phrase(),
                phrase@.len() == 43,
                r@.len() == i,
                forall|k: int| 0 <= k < i ==> r@[k] == fallback_phrase()[k % 43],
        {
            let c = phrase.get_char(i % 43);
            push_char(&mut r, c);
        }
        proof {
            assert(r@ =~= spec_fallback(length as int));
        }
        r
    }
}

} // verus!
