//! Extraction of per-character and per-pair performance from one session.
//!
//! The analysis of a keystroke log is modelled as a left fold over the log:
//! `key_model` and `bigram_model` say, as mathematical maps, exactly what
//! the analyzer must produce, and `analyze_session` is proved to produce
//! them. A pair is only recorded when both of its keystrokes were correct;
//! one error breaks pair tracking at that position.

use vstd::prelude::*;

use crate::analytics::CharPair;
use crate::assoc::{
    assoc_map, find_char_key, keys_unique, lemma_assoc_at, lemma_assoc_contains, lemma_assoc_push,
    lemma_assoc_update,
};
use crate::types::{CharInput, TypingSession};

verus! {

/// Per-key (or per-pair) performance within a single session.
#[derive(Debug, Clone, PartialEq)]
pub struct KeyPerformance {
    pub total_attempts: u64,
    pub correct_attempts: u64,
    /// The characters typed instead, one per incorrect keystroke, in order.
    pub errors: Vec<char>,
    /// Latency samples of the correct keystrokes, in ms, in order.
    pub timings: Vec<u64>,
}

impl Default for KeyPerformance {
    /// An all-zero record.
    fn default() -> (r: Self)
        ensures
            perf_view(r) == empty_perf(),
    {
        KeyPerformance {
            total_attempts: 0,
            correct_attempts: 0,
            errors: Vec::new(),
            timings: Vec::new(),
        }
    }
}

/// The mathematical content of a `KeyPerformance`.
pub ghost struct PerfModel {
    pub total: nat,
    pub correct: nat,
    pub errors: Seq<char>,
    pub timings: Seq<u64>,
}

pub open spec fn empty_perf() -> PerfModel {
    PerfModel { total: 0, correct: 0, errors: Seq::empty(), timings: Seq::empty() }
}

pub open spec fn perf_view(p: KeyPerformance) -> PerfModel {
    PerfModel {
        total: p.total_attempts as nat,
        correct: p.correct_attempts as nat,
        errors: p.errors@,
        timings: p.timings@,
    }
}

/// `perf_view` as a function value, for `assoc_map`.
pub open spec fn perf_view_fn() -> spec_fn(KeyPerformance) -> PerfModel {
    |p: KeyPerformance| perf_view(p)
}

/// What a correct keystroke at latency `ts` does to a record.
pub open spec fn perf_record_correct(p: PerfModel, ts: u64) -> PerfModel {
    PerfModel {
        total: p.total + 1,
        correct: p.correct + 1,
        errors: p.errors,
        timings: p.timings.push(ts),
    }
}

/// What an incorrect keystroke (`typed` instead) does to a record.
pub open spec fn perf_record_error(p: PerfModel, typed: char) -> PerfModel {
    PerfModel { total: p.total + 1, correct: p.correct, errors: p.errors.push(typed), timings: p.timings }
}

/// Lookup with an all-zero default.
pub open spec fn model_get<K>(m: Map<K, PerfModel>, k: K) -> PerfModel {
    if m.contains_key(k) {
        m[k]
    } else {
        empty_perf()
    }
}

/// Per-character performance after the first `n` keystrokes.
pub open spec fn key_model(inputs: Seq<CharInput>, n: int) -> Map<char, PerfModel>
    decreases n,
{
    if n <= 0 {
        Map::empty()
    } else {
        let m = key_model(inputs, n - 1);
        let inp = inputs[n - 1];
        let p = model_get(m, inp.expected);
        m.insert(
            inp.expected,
            if inp.is_correct {
                perf_record_correct(p, inp.timestamp)
            } else {
                perf_record_error(p, inp.typed)
            },
        )
    }
}

/// Per-pair performance after the first `n` keystrokes. A pair is formed
/// at position `n-1` only when that keystroke and its predecessor were
/// both correct; its timing sample is the difference of their timestamps,
/// recorded only when it is non-negative.
pub open spec fn bigram_model(inputs: Seq<CharInput>, n: int) -> Map<CharPair, PerfModel>
    decreases n,
{
    if n <= 1 {
        Map::empty()
    } else {
        let m = bigram_model(inputs, n - 1);
        let prev = inputs[n - 2];
        let cur = inputs[n - 1];
        if prev.is_correct && cur.is_correct {
            let pair = CharPair { first: prev.expected, second: cur.expected };
            let p = model_get(m, pair);
            let stepped = PerfModel {
                total: p.total + 1,
                correct: p.correct + 1,
                errors: p.errors,
                timings: if cur.timestamp >= prev.timestamp {
                    p.timings.push((cur.timestamp - prev.timestamp) as u64)
                } else {
                    p.timings
                },
            };
            m.insert(pair, stepped)
        } else {
            m
        }
    }
}

/// Internal consistency of a per-character record: every keystroke is
/// either correct (one timing sample) or an error (one mistyped char).
pub open spec fn wf_key_perf(p: PerfModel) -> bool {
    &&& p.correct <= p.total
    &&& p.errors.len() == p.total - p.correct
    &&& p.timings.len() == p.correct
}

/// Internal consistency of a per-pair record: pairs are only ever credited
/// as correct, and timing samples may be skipped but never invented.
pub open spec fn wf_bigram_perf(p: PerfModel) -> bool {
    &&& p.correct == p.total
    &&& p.errors.len() == 0
    &&& p.timings.len() <= p.total
}

/// Every record in the per-character model is consistent, and its attempt
/// count is bounded by the number of keystrokes folded so far.
pub proof fn lemma_key_model_wf(inputs: Seq<CharInput>, n: int, k: char)
    requires
        0 <= n,
    ensures
        wf_key_perf(model_get(key_model(inputs, n), k)),
        model_get(key_model(inputs, n), k).total <= n,
    decreases n,
{
    if n > 0 {
        lemma_key_model_wf(inputs, n - 1, k);
        lemma_key_model_wf(inputs, n - 1, inputs[n - 1].expected);
    }
}

/// The per-pair analogue of `lemma_key_model_wf`.
pub proof fn lemma_bigram_model_wf(inputs: Seq<CharInput>, n: int, k: CharPair)
    requires
        0 <= n,
    ensures
        wf_bigram_perf(model_get(bigram_model(inputs, n), k)),
        model_get(bigram_model(inputs, n), k).total <= n,
    decreases n,
{
    if n > 1 {
        lemma_bigram_model_wf(inputs, n - 1, k);
        if inputs[n - 2].is_correct && inputs[n - 1].is_correct {
            lemma_bigram_model_wf(
                inputs,
                n - 1,
                CharPair { first: inputs[n - 2].expected, second: inputs[n - 1].expected },
            );
        }
    }
}

/// The result of analyzing one session: association lists with unique
/// keys, in first-encounter order.
#[derive(Debug)]
pub struct SessionAnalysis {
    pub key_performance: Vec<(char, KeyPerformance)>,
    pub bigram_performance: Vec<(CharPair, KeyPerformance)>,
}

impl SessionAnalysis {
    /// Unique keys, and every record internally consistent.
    pub open spec fn wf(&self) -> bool {
        &&& keys_unique(self.key_performance@)
        &&& keys_unique(self.bigram_performance@)
        &&& forall|i: int|
            0 <= i < self.key_performance@.len() ==> wf_key_perf(
                perf_view((#[trigger] self.key_performance@[i]).1),
            )
        &&& forall|i: int|
            0 <= i < self.bigram_performance@.len() ==> wf_bigram_perf(
                perf_view((#[trigger] self.bigram_performance@[i]).1),
            )
    }

    /// The lists are sound: unique keys, and entry values abstract to the
    /// fold models of `inputs`.
    pub open spec fn models(&self, inputs: Seq<CharInput>) -> bool {
        &&& keys_unique(self.key_performance@)
        &&& keys_unique(self.bigram_performance@)
        &&& assoc_map(self.key_performance@, perf_view_fn()) == key_model(
            inputs,
            inputs.len() as int,
        )
        &&& assoc_map(self.bigram_performance@, perf_view_fn()) == bigram_model(
            inputs,
            inputs.len() as int,
        )
    }
}

/// Analyzer for extracting statistics from typing sessions.
pub struct SessionAnalyzer;

impl SessionAnalyzer {
    pub fn new() -> (r: Self) {
        Self
    }

    /// Walk a session's keystroke log once and produce its per-character
    /// and per-pair performance deltas. Pure in the log: equal logs give
    /// analyses with equal models.
    pub fn analyze_session(&self, session: &TypingSession) -> (r: SessionAnalysis)
        ensures
            r.models(session.inputs@),
            r.wf(),
    {
        let inputs = &session.inputs;
        let n = inputs.len();
        let mut key_performance: Vec<(char, KeyPerformance)> = Vec::new();
        let mut bigram_performance: Vec<(CharPair, KeyPerformance)> = Vec::new();

        for i in 0..n
            invariant
                n == inputs@.len(),
                keys_unique(key_performance@),
                keys_unique(bigram_performance@),
                assoc_map(key_performance@, perf_view_fn()) == key_model(inputs@, i as int),
                assoc_map(bigram_performance@, perf_view_fn()) == bigram_model(inputs@, i as int),
        {
            let input = inputs[i];
            let expected = input.expected;

            // Per-character record.
            let ghost pre_key = key_performance@;
            proof {
                lemma_assoc_contains(pre_key, perf_view_fn(), expected);
                lemma_key_model_wf(inputs@, i as int, expected);
            }
            match find_char_key(&key_performance, expected) {
                Some(j) => {
                    proof {
                        lemma_assoc_at(pre_key, perf_view_fn(), j as int);
                    }
                    let entry = &mut key_performance[j].1;
                    entry.total_attempts = entry.total_attempts + 1;
                    if input.is_correct {
                        entry.correct_attempts = entry.correct_attempts + 1;
                        entry.timings.push(input.timestamp);
                    } else {
                        entry.errors.push(input.typed);
                    }
                    proof {
                        assert(key_performance@ == pre_key.update(
                            j as int,
                            (expected, key_performance@[j as int].1),
                        ));
                        lemma_assoc_update(
                            pre_key,
                            perf_view_fn(),
                            j as int,
                            key_performance@[j as int].1,
                        );
                    }
                },
                None => {
                    let mut fresh = KeyPerformance::default();
                    fresh.total_attempts = 1;
                    if input.is_correct {
                        fresh.correct_attempts = 1;
                        fresh.timings.push(input.timestamp);
                    } else {
                        fresh.errors.push(input.typed);
                    }
                    proof {
                        lemma_assoc_push(pre_key, perf_view_fn(), expected, fresh);
                    }
                    key_performance.push((expected, fresh));
                },
            }

            // Per-pair record: both members must have been typed correctly.
            if i > 0 {
                let prev = inputs[i - 1];
                if prev.is_correct && input.is_correct {
                    let pair = CharPair { first: prev.expected, second: input.expected };
                    let has_timing = input.timestamp >= prev.timestamp;
                    let diff = if has_timing {
                        input.timestamp - prev.timestamp
                    } else {
                        0
                    };

                    let ghost pre_bigram = bigram_performance@;
                    proof {
                        lemma_assoc_contains(pre_bigram, perf_view_fn(), pair);
                        lemma_bigram_model_wf(inputs@, i as int, pair);
                    }
                    match crate::assoc::find_pair_key(&bigram_performance, pair) {
                        Some(j) => {
                            proof {
                                lemma_assoc_at(pre_bigram, perf_view_fn(), j as int);
                            }
                            let entry = &mut bigram_performance[j].1;
                            entry.total_attempts = entry.total_attempts + 1;
                            entry.correct_attempts = entry.correct_attempts + 1;
                            if has_timing {
                                entry.timings.push(diff);
                            }
                            proof {
                                assert(bigram_performance@ == pre_bigram.update(
                                    j as int,
                                    (pair, bigram_performance@[j as int].1),
                                ));
                                lemma_assoc_update(
                                    pre_bigram,
                                    perf_view_fn(),
                                    j as int,
                                    bigram_performance@[j as int].1,
                                );
                            }
                        },
                        None => {
                            let mut fresh = KeyPerformance::default();
                            fresh.total_attempts = 1;
                            fresh.correct_attempts = 1;
                            if has_timing {
                                fresh.timings.push(diff);
                            }
                            proof {
                                lemma_assoc_push(pre_bigram, perf_view_fn(), pair, fresh);
                            }
                            bigram_performance.push((pair, fresh));
                        },
                    }
                }
            }
        }

        proof {
            // every produced record matches the fold model, so it is
            // internally consistent
            assert forall|j: int| 0 <= j < key_performance@.len() implies wf_key_perf(
                perf_view((#[trigger] key_performance@[j]).1),
            ) by {
                lemma_assoc_at(key_performance@, perf_view_fn(), j);
                lemma_key_model_wf(inputs@, n as int, key_performance@[j].0);
            }
            assert forall|j: int| 0 <= j < bigram_performance@.len() implies wf_bigram_perf(
                perf_view((#[trigger] bigram_performance@[j]).1),
            ) by {
                lemma_assoc_at(bigram_performance@, perf_view_fn(), j);
                lemma_bigram_model_wf(inputs@, n as int, bigram_performance@[j].0);
            }
        }
        SessionAnalysis { key_performance, bigram_performance }
    }
}

} // verus!
