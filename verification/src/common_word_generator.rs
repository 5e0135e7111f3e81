//! Common-word training: frequency-ordered word lists per language, a
//! repetition drill mode, and a frequency-biased sentence mode.

use vstd::prelude::*;
use vstd::string::StrSliceExecFns;
use vstd::string::StringExecFns;

use crate::lesson::Language;
use crate::util::{draw_entropy, push_char};

verus! {

/// Every word is non-empty.
pub open spec fn words_ok(ws: Seq<String>) -> bool {
    forall|i: int| 0 <= i < ws.len() ==> (#[trigger] ws[i])@.len() > 0
}

/// Split a corpus string on single spaces into its non-empty words.
fn split_words(s: &str) -> (r: Vec<String>)
    ensures
        words_ok(r@),
{
    let n = s.unicode_len();
    let mut r: Vec<String> = Vec::new();
    let mut current = String::new();
    let mut have: usize = 0;
    for i in 0..n
        invariant
            n == s@.len(),
            have == current@.len(),
            have <= i,
            words_ok(r@),
    {
        let c = s.get_char(i);
        if c == ' ' {
            if have > 0 {
                let ghost pre = r@;
                r.push(current);
                proof {
                    assert forall|k: int| 0 <= k < r@.len() implies (#[trigger] r@[k])@.len() > 0 by {
                        if k < pre.len() {
                            assert(r@[k] == pre[k]);
                        }
                    }
                }
                current = String::new();
                have = 0;
            }
        } else {
            push_char(&mut current, c);
            have = have + 1;
        }
    }
    if have > 0 {
        let ghost pre = r@;
        r.push(current);
        proof {
            assert forall|k: int| 0 <= k < r@.len() implies (#[trigger] r@[k])@.len() > 0 by {
                if k < pre.len() {
                    assert(r@[k] == pre[k]);
                }
            }
        }
    }
    r
}

/// Generator of common-word practice for one language.
pub struct CommonWordGenerator {
    words: Vec<String>,
}

impl CommonWordGenerator {
    /// A non-empty, frequency-ordered list of non-empty words.
    pub closed spec fn wf(&self) -> bool {
        self.words@.len() > 0 && words_ok(self.words@)
    }

    pub fn new(language: Language) -> (r: Self)
        ensures
            r.wf(),
    {
        let words = match language {
            Language::French => crate::word_lists::french_words(),
            Language::English => crate::word_lists::english_words(),
        };
        proof {
            reveal_strlit("practice");
        }
        let words = if words.len() == 0 {
            // an empty corpus never occurs; keep the generator total
            let mut fallback: Vec<String> = Vec::new();
            fallback.push(String::from_str("practice"));
            fallback
        } else {
            words
        };
        Self { words }
    }

    /// Generate content for a level: level 1 is the repetition drill over
    /// the top words, levels 2 to 4 the frequency-biased sentence mode
    /// over ever larger word pools. The result has exactly the requested
    /// length; any other level yields nothing.
    pub fn generate(&self, level: usize, length: usize) -> (r: String)
        requires
            self.wf(),
        ensures
            1 <= level <= 4 ==> r@.len() == length,
            !(1 <= level <= 4) ==> r@.len() == 0,
    {
        let selected_words = self.select_words_for_level(level);

        if level == 1 {
            self.generate_drill_mode(&selected_words, length)
        } else if 2 <= level && level <= 4 {
            self.generate_sentence_mode(&selected_words, length)
        } else {
            String::new()
        }
    }

    /// The word pool of a level: the 50 / 100 / 200 / 500 most frequent
    /// words for levels 1 to 4 (50 for any other level), capped by the
    /// corpus size.
    pub fn select_words_for_level(&self, level: usize) -> (r: Vec<String>)
        requires
            self.wf(),
        ensures
            r@.len() > 0,
            words_ok(r@),
            r@.len() == if spec_level_count(level) < self.corpus_len() {
                spec_level_count(level)
            } else {
                self.corpus_len()
            },
    {
        let count: usize = if level == 1 {
            50
        } else if level == 2 {
            100
        } else if level == 3 {
            200
        } else if level == 4 {
            500
        } else {
            50
        };
        let take = if count < self.words.len() {
            count
        } else {
            self.words.len()
        };
        let mut r: Vec<String> = Vec::new();
        for i in 0..take
            invariant
                take <= self.words@.len(),
                self.wf(),
                r@.len() == i,
                forall|k: int| 0 <= k < i ==> (#[trigger] r@[k])@ == self.words@[k]@,
        {
            r.push(self.words[i].clone());
        }
        proof {
            assert forall|k: int| 0 <= k < r@.len() implies (#[trigger] r@[k])@.len() > 0 by {
                assert(r@[k]@ == self.words@[k]@);
            }
        }
        r
    }

    /// The number of words in the corpus.
    pub closed spec fn corpus_len(&self) -> int {
        self.words@.len() as int
    }

    /// Level 1: each word repeated twice, space separated, cut to exactly
    /// `length` characters.
    fn generate_drill_mode(&self, words: &Vec<String>, length: usize) -> (r: String)
        requires
            words@.len() > 0,
            words_ok(words@),
        ensures
            r@.len() == length,
    {
        let mut result = String::new();
        let mut built: usize = 0;
        let mut idx: usize = 0;
        while built < length
            invariant
                built <= result@.len(),
                built <= length,
                words@.len() > 0,
                words_ok(words@),
            decreases length - built,
        {
            if built > 0 {
                push_char(&mut result, ' ');
                built = built + 1;
            }
            if built < length {
                let word = &words[idx % words.len()];
                result.append(word.as_str());
                push_char(&mut result, ' ');
                result.append(word.as_str());
                let wl = word.as_str().unicode_len();
                let remaining = length - built;
                if wl >= remaining {
                    built = length;
                } else if wl + 1 >= remaining - wl {
                    built = length;
                } else {
                    built = built + (wl + wl + 1);
                }
                idx = if idx == usize::MAX {
                    0
                } else {
                    idx + 1
                };
            }
        }
        let cut = result.as_str().substring_char(0, length);
        String::from_str(cut)
    }

    /// Levels 2 to 4: words drawn at random, space separated, most draws
    /// biased toward the most frequent fifth of the pool, cut to exactly
    /// `length` characters.
    fn generate_sentence_mode(&self, words: &Vec<String>, length: usize) -> (r: String)
        requires
            words@.len() > 0,
            words_ok(words@),
        ensures
            r@.len() == length,
    {
        let mut result = String::new();
        let mut built: usize = 0;
        while built < length
            invariant
                built <= result@.len(),
                built <= length,
                words@.len() > 0,
                words_ok(words@),
            decreases length - built,
        {
            if built > 0 {
                push_char(&mut result, ' ');
                built = built + 1;
            }
            if built < length {
                // frequency bias: 70% of draws come from the top fifth
                let top = if words.len() / 5 > 0 {
                    words.len() / 5
                } else {
                    1
                };
                let idx = if draw_entropy() % 100 < 70 {
                    (draw_entropy() as usize) % top
                } else {
                    (draw_entropy() as usize) % words.len()
                };
                let word = &words[idx];
                result.append(word.as_str());
                let wl = word.as_str().unicode_len();
                if wl >= length - built {
                    built = length;
                } else {
                    built = built + wl;
                }
            }
        }
        let cut = result.as_str().substring_char(0, length);
        String::from_str(cut)
    }
}

/// The word-pool cap of a level.
pub open spec fn spec_level_count(level: usize) -> int {
    if level == 1 {
        50
    } else if level == 2 {
        100
    } else if level == 3 {
        200
    } else if level == 4 {
        500
    } else {
        50
    }
}

/// The words of one corpus string.
pub fn corpus_words(corpus: &str) -> (r: Vec<String>)
    ensures
        words_ok(r@),
{
    split_words(corpus)
}

} // verus!
