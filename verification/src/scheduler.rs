//! Spaced repetition: when a character should be practiced again.

use vstd::prelude::*;

use crate::analytics::{spec_ratio_centi, KeyStats, MasteryLevel};
use crate::types::spec_elapsed;

verus! {

/// The fixed re-practice delay table, in seconds. Accuracy is in
/// hundredths of a percent.
pub open spec fn spec_next_interval(mastery: MasteryLevel, accuracy: u64) -> u64 {
    match mastery {
        MasteryLevel::Beginner => 0u64,
        MasteryLevel::Learning => if accuracy < 8000 {
            1800u64
        } else {
            7200u64
        },
        MasteryLevel::Proficient => if accuracy < 9000 {
            86400u64
        } else {
            259200u64
        },
        MasteryLevel::Mastered => 604800u64,
    }
}

/// Recommended delay before the next practice, in seconds: a fixed lookup
/// over the mastery level and the accuracy (hundredths of a percent).
///
/// A beginner is always due immediately; a mastered character waits a full
/// week, whatever its accuracy.
pub fn next_interval(mastery: MasteryLevel, accuracy: u64) -> (r: u64)
    ensures
        r == spec_next_interval(mastery, accuracy),
        mastery == MasteryLevel::Beginner ==> r == 0,
        mastery == MasteryLevel::Mastered ==> r == 604800,
{
    match mastery {
        MasteryLevel::Beginner => 0,
        MasteryLevel::Learning => if accuracy < 8000 {
            1800  // 30 minutes
        } else {
            7200  // 2 hours
        },
        MasteryLevel::Proficient => if accuracy < 9000 {
            86400  // 1 day
        } else {
            259200  // 3 days
        },
        MasteryLevel::Mastered => 604800,  // 7 days
    }
}

/// Whether a character is due for practice at clock reading `now_ms`: a
/// never-practiced character is always due, and otherwise the time since
/// the last practice must have reached the recommended interval.
pub fn needs_practice(record: &KeyStats, now_ms: u64) -> (r: bool)
    requires
        record.wf(),
    ensures
        r == match record.last_practiced {
            None => true,
            Some(t) => spec_elapsed(t, now_ms) as nat >= spec_next_interval(
                record.mastery_level,
                sat_accuracy(record),
            ) as nat * 1000,
        },
{
    match record.last_practiced {
        None => true,
        Some(t) => {
            let elapsed = if now_ms >= t {
                now_ms - t
            } else {
                0
            };
            let interval_secs = next_interval(record.mastery_level, record.accuracy());
            // the table tops out at 604800 s, so this cannot overflow
            (elapsed as u128) >= (interval_secs as u128) * 1000
        },
    }
}

/// The record's accuracy in hundredths of a percent.
pub open spec fn sat_accuracy(record: &KeyStats) -> u64 {
    spec_ratio_centi(record.correct_attempts as nat, record.total_attempts as nat) as u64
}

} // verus!
