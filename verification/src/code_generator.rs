//! Practice content for code symbols: cycle the snippets at or below the
//! requested level, newline-separated, cut to the requested length.
//!
//! The output is specified exactly: it is the newline-joined cycle of the
//! eligible templates, cut to the requested length. Two calls with the
//! same level and length therefore yield the same string.

use vstd::prelude::*;
use vstd::string::StrSliceExecFns;
use vstd::string::StringExecFns;

use crate::code_symbols::{
    python_snippets, rust_snippets, typescript_snippets, CodeSnippet, ProgrammingLanguage,
};

verus! {

/// The indices of the snippets at or below `level`, among the first `hi`,
/// in table order.
pub open spec fn spec_filtered(snips: Seq<CodeSnippet>, level: usize, hi: int) -> Seq<usize>
    decreases hi,
{
    if hi <= 0 {
        Seq::empty()
    } else {
        let prev = spec_filtered(snips, level, hi - 1);
        if (snips[hi - 1].difficulty as int) <= level as int {
            prev.push((hi - 1) as usize)
        } else {
            prev
        }
    }
}

/// The first `rounds` templates of the cycle over `filt`, joined by
/// newlines.
pub open spec fn spec_code_join(snips: Seq<CodeSnippet>, filt: Seq<usize>, rounds: int) -> Seq<
    char,
>
    decreases rounds,
{
    if rounds <= 0 || filt.len() == 0 {
        Seq::empty()
    } else {
        let prev = spec_code_join(snips, filt, rounds - 1);
        let tpl = snips[filt[(rounds - 1) % filt.len() as int] as int].template@;
        if rounds == 1 {
            tpl
        } else {
            prev + seq!['\n'] + tpl
        }
    }
}

/// Every filtered index is in bounds and names a non-empty template.
pub open spec fn filt_ok(snips: Seq<CodeSnippet>, filt: Seq<usize>) -> bool {
    forall|k: int|
        0 <= k < filt.len() ==> (#[trigger] filt[k]) < snips.len() && snips[filt[k] as int].template@.len()
            > 0
}

/// Each round of the join adds at least one character.
proof fn lemma_code_join_min_len(snips: Seq<CodeSnippet>, filt: Seq<usize>, n: int)
    requires
        filt.len() > 0,
        filt_ok(snips, filt),
        n >= 0,
    ensures
        spec_code_join(snips, filt, n).len() >= n,
    decreases n,
{
    if n > 0 {
        lemma_code_join_min_len(snips, filt, n - 1);
    }
}

/// A shorter join is a prefix of a longer one.
proof fn lemma_code_join_prefix(snips: Seq<CodeSnippet>, filt: Seq<usize>, n: int, m: int)
    requires
        filt.len() > 0,
        0 <= n <= m,
    ensures
        spec_code_join(snips, filt, n).len() <= spec_code_join(snips, filt, m).len(),
        spec_code_join(snips, filt, m).take(spec_code_join(snips, filt, n).len() as int)
            == spec_code_join(snips, filt, n),
    decreases m,
{
    let jn = spec_code_join(snips, filt, n);
    if m > n {
        lemma_code_join_prefix(snips, filt, n, m - 1);
        let jm1 = spec_code_join(snips, filt, m - 1);
        assert(spec_code_join(snips, filt, m).take(jn.len() as int) =~= jm1.take(jn.len() as int));
    } else {
        assert(spec_code_join(snips, filt, m).take(jn.len() as int) =~= jn);
    }
}

pub struct CodeSymbolGenerator {
    snippets: Vec<CodeSnippet>,
}

impl CodeSymbolGenerator {
    /// The snippet table behind this generator.
    pub closed spec fn snippets_spec(&self) -> Seq<CodeSnippet> {
        self.snippets@
    }

    /// 18 snippets with non-empty templates, difficulties in 1 ..= 6, and
    /// a snippet of each difficulty in place.
    pub open spec fn wf(&self) -> bool {
        &&& self.snippets_spec().len() == 18
        &&& crate::code_symbols::difficulties_in_range(self.snippets_spec())
        &&& forall|d: int|
            1 <= d <= 6 ==> (#[trigger] self.snippets_spec()[3 * (d - 1)]).difficulty == d
        &&& forall|i: int|
            0 <= i < self.snippets_spec().len() ==> (
            #[trigger] self.snippets_spec()[i]).template@.len() > 0
    }

    /// Some snippet is available at or below `level`.
    pub open spec fn has_level(&self, level: usize) -> bool {
        exists|i: int|
            0 <= i < self.snippets_spec().len() && ((
            #[trigger] self.snippets_spec()[i]).difficulty as int) <= level as int
    }

    pub fn new(language: ProgrammingLanguage) -> (r: Self)
        ensures
            r.wf(),
            forall|lv: usize| 1 <= lv <= 6 ==> #[trigger] r.has_level(lv),
            !r.has_level(0),
    {
        let snippets = match language {
            ProgrammingLanguage::TypeScript => typescript_snippets(),
            ProgrammingLanguage::Rust => rust_snippets(),
            ProgrammingLanguage::Python => python_snippets(),
        };
        let r = Self { snippets };
        proof {
            assert forall|lv: usize| 1 <= lv <= 6 implies #[trigger] r.has_level(lv) by {
                assert(r.snippets@[3 * (1 - 1)].difficulty == 1);
                assert(r.snippets@[0].difficulty == 1);
            }
        }
        r
    }

    /// Generate code practice content for a level from 1 (basic brackets)
    /// to 6 (realistic code): the eligible templates cycled in table
    /// order, newline-separated, cut to exactly `length` characters. The
    /// result is empty exactly when the length is zero or no snippet's
    /// difficulty lies at or below the level; two calls with equal
    /// arguments yield equal strings.
    pub fn generate(&self, level: usize, length: usize) -> (r: String)
        requires
            self.wf(),
        ensures
            r@.len() <= length,
            r@.len() == 0 <==> (length == 0 || !self.has_level(level)),
            r@ == spec_code_join(
                self.snippets_spec(),
                spec_filtered(self.snippets_spec(), level, self.snippets_spec().len() as int),
                length as int,
            ).take(
                if (length as int) <= spec_code_join(
                    self.snippets_spec(),
                    spec_filtered(self.snippets_spec(), level, self.snippets_spec().len() as int),
                    length as int,
                ).len() {
                    length as int
                } else {
                    spec_code_join(
                        self.snippets_spec(),
                        spec_filtered(
                            self.snippets_spec(),
                            level,
                            self.snippets_spec().len() as int,
                        ),
                        length as int,
                    ).len() as int
                },
            ),
    {
        let ghost gfilt = spec_filtered(self.snippets@, level, self.snippets@.len() as int);

        // indexes of the snippets at or below the requested level
        let mut filtered: Vec<usize> = Vec::new();
        let n = self.snippets.len();
        for i in 0..n
            invariant
                self.wf(),
                n == self.snippets@.len(),
                filtered@ == spec_filtered(self.snippets@, level, i as int),
                filt_ok(self.snippets@, filtered@),
                filtered@.len() == 0 ==> forall|i2: int|
                    0 <= i2 < i ==> ((#[trigger] self.snippets@[i2]).difficulty as int)
                        > level as int,
                filtered@.len() > 0 ==> self.has_level(level),
        {
            if (self.snippets[i].difficulty as usize) <= level {
                let ghost pre = filtered@;
                filtered.push(i);
                proof {
                    assert forall|k: int| 0 <= k < filtered@.len() implies (#[trigger] filtered@[k])
                        < n && self.snippets@[filtered@[k] as int].template@.len() > 0 by {
                        if k < pre.len() {
                            assert(filtered@[k] == pre[k]);
                        }
                    }
                }
            }
        }

        if filtered.len() == 0 {
            let r = String::new();
            return r;
        }

        let mut result = String::new();
        let mut built: usize = 0;
        let mut idx: usize = 0;
        let rounds = length;
        let mut round: usize = 0;
        proof {
            if length == 0 {
                assert(result@.take(0) =~= spec_code_join(self.snippets@, gfilt, 0).take(0));
            }
        }
        while built < length && round < rounds
            invariant
                self.wf(),
                gfilt == spec_filtered(self.snippets@, level, self.snippets@.len() as int),
                filtered@ == gfilt,
                filtered@.len() > 0,
                filt_ok(self.snippets@, filtered@),
                built <= length,
                round <= rounds,
                rounds == length,
                built < length ==> built == result@.len() && result@ == spec_code_join(
                    self.snippets@,
                    gfilt,
                    round as int,
                ) && idx == round,
                built == length ==> result@.len() >= length && result@.take(length as int)
                    == spec_code_join(self.snippets@, gfilt, rounds as int).take(length as int),
            decreases rounds - round,
        {
            let ghost pre_round = round as int;
            round = round + 1;
            if built > 0 {
                crate::util::push_char(&mut result, '\n');
                built = built + 1;
                proof {
                    if built == length {
                        // the separator filled the last slot: the content
                        // so far is a prefix of the longer joins
                        let jr = spec_code_join(self.snippets@, gfilt, round as int);
                        assert(jr == spec_code_join(self.snippets@, gfilt, pre_round) + seq!['\n']
                            + self.snippets@[gfilt[pre_round % gfilt.len() as int] as int].template@);
                        assert(result@ =~= jr.take(result@.len() as int));
                        lemma_code_join_prefix(self.snippets@, gfilt, round as int, rounds as int);
                        assert(result@.take(length as int) =~= spec_code_join(
                            self.snippets@,
                            gfilt,
                            rounds as int,
                        ).take(length as int));
                    }
                }
            }
            if built < length {
                let snippet = &self.snippets[filtered[idx % filtered.len()]];
                let t = snippet.template.as_str();
                let tl = t.unicode_len();
                result.append(t);
                proof {
                    assert(result@ =~= spec_code_join(self.snippets@, gfilt, round as int));
                }
                if tl >= length - built {
                    built = length;
                    proof {
                        lemma_code_join_prefix(self.snippets@, gfilt, round as int, rounds as int);
                        assert(result@.take(length as int) =~= spec_code_join(
                            self.snippets@,
                            gfilt,
                            rounds as int,
                        ).take(length as int));
                    }
                } else {
                    built = built + tl;
                }
                idx = idx + 1;
            }
        }

        proof {
            // the loop can only stop because the length was reached: each
            // round contributes at least one character
            if built < length {
                lemma_code_join_min_len(self.snippets@, gfilt, round as int);
            }
            assert(built == length);
        }

        // hard character cut down to the requested length
        let have = result.as_str().unicode_len();
        let cut_len = if have < length {
            have
        } else {
            length
        };
        let cut = result.as_str().substring_char(0, cut_len);
        let r = String::from_str(cut);
        proof {
            lemma_code_join_min_len(self.snippets@, gfilt, rounds as int);
            if length > 0 {
                assert(r@.len() >= 1);
            }
        }
        r
    }
}

} // verus!
