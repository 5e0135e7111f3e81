//! Per-character and per-pair performance statistics and the mastery
//! classification derived from them.
//!
//! All ratios are reported as integers in hundredths of a percent
//! (`0 ..= 10_000`), so that every comparison against a threshold is an
//! exact rational comparison rather than a floating-point approximation.

use vstd::prelude::*;

verus! {

/// Mastery level classification for characters and character pairs.
#[derive(Debug, Clone, Copy, PartialEq, Eq, Structural)]
pub enum MasteryLevel {
    Beginner,
    Learning,
    Proficient,
    Mastered,
}

/// `correct / total >= pct / 100`, stated without division.
pub open spec fn accuracy_at_least(total: nat, correct: nat, pct: nat) -> bool {
    correct * 100 >= pct * total
}

/// The classification rule: first match wins.
///
/// Fewer than 5 attempts always means `Beginner`, regardless of accuracy;
/// `Mastered` additionally demands at least 20 correct attempts.
pub open spec fn spec_mastery(total: nat, correct: nat) -> MasteryLevel {
    if total < 5 {
        MasteryLevel::Beginner
    } else if accuracy_at_least(total, correct, 95) && correct >= 20 {
        MasteryLevel::Mastered
    } else if accuracy_at_least(total, correct, 85) {
        MasteryLevel::Proficient
    } else if accuracy_at_least(total, correct, 70) {
        MasteryLevel::Learning
    } else {
        MasteryLevel::Beginner
    }
}

/// Numeric rank of a level, for stating monotonicity.
pub open spec fn mastery_rank(level: MasteryLevel) -> int {
    match level {
        MasteryLevel::Beginner => 0,
        MasteryLevel::Learning => 1,
        MasteryLevel::Proficient => 2,
        MasteryLevel::Mastered => 3,
    }
}

impl MasteryLevel {
    /// Classify mastery level from a character's statistics.
    pub fn from_stats(stats: &KeyStats) -> (level: Self)
        ensures
            level == spec_mastery(stats.total_attempts as nat, stats.correct_attempts as nat),
    {
        let total = stats.total_attempts;
        let correct = stats.correct_attempts;

        if total < 5 {
            return MasteryLevel::Beginner;
        }

        let scaled = (correct as u128) * 100;
        if scaled >= 95 * (total as u128) && correct >= 20 {
            MasteryLevel::Mastered
        } else if scaled >= 85 * (total as u128) {
            MasteryLevel::Proficient
        } else if scaled >= 70 * (total as u128) {
            MasteryLevel::Learning
        } else {
            MasteryLevel::Beginner
        }
    }

    /// Share of practice time this mastery level should receive, in
    /// hundredths of the whole: 60% / 30% / 10% / 5%.
    pub fn practice_weight(&self) -> (w: u64)
        ensures
            w == spec_practice_weight(*self),
    {
        match self {
            MasteryLevel::Beginner => 60,
            MasteryLevel::Learning => 30,
            MasteryLevel::Proficient => 10,
            MasteryLevel::Mastered => 5,
        }
    }
}

/// Practice weights, in hundredths; they sum to 105 because the mastered
/// slice sits beyond the first 100 as a final fallback.
pub open spec fn spec_practice_weight(level: MasteryLevel) -> u64 {
    match level {
        MasteryLevel::Beginner => 60,
        MasteryLevel::Learning => 30,
        MasteryLevel::Proficient => 10,
        MasteryLevel::Mastered => 5,
    }
}

/// Raising accuracy at a fixed number of attempts never lowers the level.
///
/// Mastery classification is a pure function of the attempt counters, and
/// it is monotone in the number of correct attempts.
pub proof fn lemma_mastery_monotone(total: nat, c1: nat, c2: nat)
    requires
        c1 <= c2,
        c2 <= total,
    ensures
        mastery_rank(spec_mastery(total, c1)) <= mastery_rank(spec_mastery(total, c2)),
{
}

/// `total / total == 100%`: floor division by a positive count of a value
/// scaled by `10_000` never exceeds `10_000` when the numerator is at most
/// the denominator.
proof fn lemma_ratio_bound(num: nat, den: nat)
    requires
        num <= den,
        0 < den,
    ensures
        num * 10000 / den <= 10000,
{
    assert(num * 10000 <= den * 10000) by (nonlinear_arith)
        requires num <= den;
    assert(num * 10000 / den <= den * 10000 / den) by {
        vstd::arithmetic::div_mod::lemma_div_is_ordered(
            (num * 10000) as int,
            (den * 10000) as int,
            den as int,
        );
    }
    assert(den * 10000 / den == 10000) by (nonlinear_arith)
        requires 0 < den;
}

/// A ratio of a part to a whole never exceeds 100%.
pub proof fn lemma_ratio_centi_le(num: nat, den: nat)
    requires
        num <= den,
    ensures
        spec_ratio_centi(num, den) <= 10000,
{
    if den > 0 {
        lemma_ratio_bound(num, den);
    }
}

/// Statistics accumulated for one tracked character.
///
/// Well-formedness (`wf`) asks that the correct and error counters never
/// exceed the total; every constructor and merge step preserves it.
#[derive(Debug, Clone, PartialEq)]
pub struct KeyStats {
    /// The tracked character.
    pub key: char,
    pub total_attempts: u64,
    pub correct_attempts: u64,
    pub error_count: u64,
    /// Sum of the recorded latencies of the correct keystrokes, in ms.
    pub total_time_ms: u64,
    /// For each character typed instead of `key`, how often it was typed;
    /// keys are unique.
    pub mistype_map: Vec<(char, u64)>,
    /// Time of the last merge that touched this character, in ms since an
    /// arbitrary epoch; `None` means never practiced.
    pub last_practiced: Option<u64>,
    /// Derived level; recomputed on every merge, never set independently.
    pub mastery_level: MasteryLevel,
}

/// Keys of an association list are pairwise distinct.
pub open spec fn mistypes_unique(m: Seq<(char, u64)>) -> bool {
    forall|i: int, j: int| 0 <= i < j < m.len() ==> m[i].0 != m[j].0
}

impl KeyStats {
    pub open spec fn wf(&self) -> bool {
        &&& self.correct_attempts <= self.total_attempts
        &&& self.error_count <= self.total_attempts
        &&& mistypes_unique(self.mistype_map@)
    }

    /// A fresh, empty record for `key`.
    pub fn new(key: char) -> (r: Self)
        ensures
            r.key == key,
            r.total_attempts == 0,
            r.correct_attempts == 0,
            r.error_count == 0,
            r.total_time_ms == 0,
            r.mistype_map@ =~= Seq::<(char, u64)>::empty(),
            r.last_practiced is None,
            r.mastery_level == MasteryLevel::Beginner,
            r.wf(),
    {
        Self {
            key,
            total_attempts: 0,
            correct_attempts: 0,
            error_count: 0,
            total_time_ms: 0,
            mistype_map: Vec::new(),
            last_practiced: None,
            mastery_level: MasteryLevel::Beginner,
        }
    }

    /// Accuracy in hundredths of a percent: `100 * 100 * correct / total`,
    /// rounded down; 0 when no attempts were made.
    pub fn accuracy(&self) -> (r: u64)
        requires
            self.wf(),
        ensures
            r == spec_ratio_centi(
                self.correct_attempts as nat,
                self.total_attempts as nat,
            ),
            r <= 10000,
    {
        ratio_centi_spec_helper(self.correct_attempts, self.total_attempts)
    }

    /// Error rate in hundredths of a percent; 0 when no attempts were made.
    pub fn error_rate(&self) -> (r: u64)
        requires
            self.wf(),
        ensures
            r == spec_ratio_centi(self.error_count as nat, self.total_attempts as nat),
            r <= 10000,
    {
        ratio_centi_spec_helper(self.error_count, self.total_attempts)
    }

    /// Average latency of a correct keystroke in ms, rounded down;
    /// 0 when no keystroke was correct.
    pub fn average_time_ms(&self) -> (r: u64)
        ensures
            r == spec_average(self.total_time_ms as nat, self.correct_attempts as nat),
    {
        if self.correct_attempts == 0 {
            0
        } else {
            self.total_time_ms / self.correct_attempts
        }
    }

    /// Recompute the derived mastery level from the current counters.
    pub fn update_mastery_level(&mut self)
        ensures
            *final(self) == (KeyStats {
                mastery_level: spec_mastery(
                    old(self).total_attempts as nat,
                    old(self).correct_attempts as nat,
                ),
                ..*old(self)
            }),
    {
        self.mastery_level = MasteryLevel::from_stats(self);
    }
}

/// `num / den` as a percentage in hundredths, rounded down; 0 when `den == 0`.
pub open spec fn spec_ratio_centi(num: nat, den: nat) -> nat {
    if den == 0 {
        0
    } else {
        num * 10000 / den
    }
}

/// `num / den` rounded down; 0 when `den == 0`.
pub open spec fn spec_average(num: nat, den: nat) -> nat {
    if den == 0 {
        0
    } else {
        num / den
    }
}

/// Shared computation behind `accuracy` and `error_rate`.
fn ratio_centi_spec_helper(num: u64, den: u64) -> (r: u64)
    requires
        num <= den,
    ensures
        r == spec_ratio_centi(num as nat, den as nat),
        r <= 10000,
{
    if den == 0 {
        0
    } else {
        let wide = (num as u128) * 10000 / (den as u128);
        proof {
            lemma_ratio_bound(num as nat, den as nat);
        }
        wide as u64
    }
}

/// An ordered pair of adjacent characters.
#[derive(Debug, Clone, Copy, PartialEq, Eq, Structural)]
pub struct CharPair {
    pub first: char,
    pub second: char,
}

impl CharPair {
    pub fn new(first: char, second: char) -> (r: Self)
        ensures
            r == (CharPair { first, second }),
    {
        CharPair { first, second }
    }
}

/// Statistics accumulated for one adjacent character pair, tracked only
/// when both members were typed correctly at least once in sequence.
#[derive(Debug, Clone, PartialEq)]
pub struct BigramStats {
    /// The tracked pair.
    pub bigram: CharPair,
    pub total_attempts: u64,
    pub correct_attempts: u64,
    pub total_time_ms: u64,
    pub last_practiced: Option<u64>,
}

impl BigramStats {
    pub open spec fn wf(&self) -> bool {
        self.correct_attempts <= self.total_attempts
    }

    /// A fresh, empty record for `bigram`.
    pub fn new(bigram: CharPair) -> (r: Self)
        ensures
            r.bigram == bigram,
            r.total_attempts == 0,
            r.correct_attempts == 0,
            r.total_time_ms == 0,
            r.last_practiced is None,
            r.wf(),
    {
        Self {
            bigram,
            total_attempts: 0,
            correct_attempts: 0,
            total_time_ms: 0,
            last_practiced: None,
        }
    }

    /// Accuracy in hundredths of a percent; 0 when no attempts were made.
    pub fn accuracy(&self) -> (r: u64)
        requires
            self.wf(),
        ensures
            r == spec_ratio_centi(
                self.correct_attempts as nat,
                self.total_attempts as nat,
            ),
            r <= 10000,
    {
        ratio_centi_spec_helper(self.correct_attempts, self.total_attempts)
    }

    /// Average latency of a correct pair in ms, rounded down; 0 when no
    /// pair was correct. Pairs are only ever credited as correct, so the
    /// correct count is also the attempt count.
    pub fn average_time_ms(&self) -> (r: u64)
        ensures
            r == spec_average(self.total_time_ms as nat, self.correct_attempts as nat),
    {
        if self.correct_attempts == 0 {
            0
        } else {
            self.total_time_ms / self.correct_attempts
        }
    }
}

} // verus!
