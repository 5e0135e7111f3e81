//! Scoring of a completed session: words per minute and accuracy.

use vstd::prelude::*;

use crate::analytics::spec_ratio_centi;
use crate::types::{CharInput, SessionResult, TypingSession};

verus! {

/// Words per minute in hundredths, with a word counted as 5 characters:
/// `(chars / 5) / (ms / 60_000) * 100 == chars * 1_200_000 / ms`.
/// Zero elapsed time scores zero.
pub open spec fn spec_wpm(chars: nat, ms: nat) -> nat {
    if ms == 0 {
        0
    } else {
        chars * 1_200_000 / ms
    }
}

/// Number of incorrect keystrokes in the log.
pub open spec fn num_errors(s: Seq<CharInput>) -> nat
    decreases s.len(),
{
    if s.len() == 0 {
        0
    } else {
        num_errors(s.drop_last()) + if s.last().is_correct {
            0nat
        } else {
            1nat
        }
    }
}

pub proof fn lemma_num_errors_bound(s: Seq<CharInput>)
    ensures
        num_errors(s) <= s.len(),
    decreases s.len(),
{
    if s.len() > 0 {
        lemma_num_errors_bound(s.drop_last());
    }
}

/// Typing speed in hundredths of a word per minute, saturated at `u64::MAX`.
pub fn calculate_wpm(char_count: usize, duration_ms: u64) -> (r: u64)
    ensures
        r == if spec_wpm(char_count as nat, duration_ms as nat) > u64::MAX {
            u64::MAX as nat
        } else {
            spec_wpm(char_count as nat, duration_ms as nat)
        },
{
    if duration_ms == 0 {
        return 0;
    }
    let wide = (char_count as u128) * 1_200_000 / (duration_ms as u128);
    if wide > u64::MAX as u128 {
        u64::MAX
    } else {
        wide as u64
    }
}

/// Accuracy in hundredths of a percent, saturated at `u64::MAX`;
/// zero attempts score zero.
pub fn calculate_accuracy(correct: usize, total: usize) -> (r: u64)
    ensures
        r == if spec_ratio_centi(correct as nat, total as nat) > u64::MAX {
            u64::MAX as nat
        } else {
            spec_ratio_centi(correct as nat, total as nat)
        },
{
    if total == 0 {
        return 0;
    }
    let wide = (correct as u128) * 10000 / (total as u128);
    if wide > u64::MAX as u128 {
        u64::MAX
    } else {
        wide as u64
    }
}

/// Score a session at clock reading `now_ms`: counts, accuracy over all
/// keystrokes, elapsed time, and speed.
pub fn calculate_results(session: &TypingSession, now_ms: u64) -> (r: SessionResult)
    ensures
        r.char_count == session.inputs@.len(),
        r.error_count == num_errors(session.inputs@),
        r.accuracy == spec_ratio_centi(
            (session.inputs@.len() - num_errors(session.inputs@)) as nat,
            session.inputs@.len() as nat,
        ),
        r.duration == match (session.start_time, session.end_time) {
            (Some(start), Some(end)) => crate::types::spec_elapsed(start, end),
            (Some(start), None) => crate::types::spec_elapsed(start, now_ms),
            _ => 0u64,
        },
        r.wpm == if spec_wpm(session.inputs@.len(), r.duration as nat) > u64::MAX {
            u64::MAX as nat
        } else {
            spec_wpm(session.inputs@.len(), r.duration as nat)
        },
{
    let char_count = session.inputs.len();
    let mut error_count: usize = 0;
    for i in 0..char_count
        invariant
            char_count == session.inputs@.len(),
            error_count == num_errors(session.inputs@.take(i as int)),
            error_count <= i,
    {
        proof {
            assert(session.inputs@.take(i + 1).drop_last() =~= session.inputs@.take(i as int));
            assert(session.inputs@.take(i + 1).last() == session.inputs@[i as int]);
        }
        if !session.inputs[i].is_correct {
            error_count = error_count + 1;
        }
    }
    proof {
        assert(session.inputs@.take(char_count as int) =~= session.inputs@);
        lemma_num_errors_bound(session.inputs@);
    }

    let accuracy = calculate_accuracy(char_count - error_count, char_count);
    proof {
        crate::analytics::lemma_ratio_centi_le(
            (char_count - error_count) as nat,
            char_count as nat,
        );
    }
    let duration = session.duration(now_ms);
    let wpm = calculate_wpm(char_count, duration);

    SessionResult::new(wpm, accuracy, duration, char_count, error_count)
}

} // verus!
