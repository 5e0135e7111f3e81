//! Deterministic drill-content generators and the lesson-level content
//! dispatch.

use vstd::prelude::*;
use vstd::string::StrSliceExecFns;
use vstd::string::StringExecFns;

use crate::code_generator::CodeSymbolGenerator;
use crate::lesson::{Lesson, LessonType};
use crate::util::push_char;

verus! {

/// Every character of `r` is a separator or one of the drilled keys.
pub open spec fn drill_chars_ok(keys: Seq<char>, r: Seq<char>) -> bool {
    forall|i: int| 0 <= i < r.len() ==> r[i] == ' ' || keys.contains(#[trigger] r[i])
}

/// A generator of practice content of bounded length.
pub trait ContentGenerator {
    fn generate(&self, length: usize) -> (r: String)
        ensures
            r@.len() <= length,
    ;
}

impl ContentGenerator for Lesson {
    /// Content for this lesson, at most `length` characters. Lessons that
    /// need external data (bigram and word corpora) or the adaptive
    /// aggregate produce no content here.
    fn generate(&self, length: usize) -> (r: String)
        ensures
            r@.len() <= length,
    {
        match &self.lesson_type {
            LessonType::HomeRow { level } => {
                if *level == 1 {
                    generate_two_key_drills(&self.keys, length)
                } else if 2 <= *level && *level <= 5 {
                    generate_progressive_drills(&self.keys, length)
                } else if *level == 6 {
                    generate_words(&self.keys, length)
                } else {
                    String::new()
                }
            },
            LessonType::KeyPair { .. } => generate_progressive_drills(&self.keys, length),
            LessonType::KeyPairGroup { .. } => generate_progressive_drills(&self.keys, length),
            LessonType::CodeSymbols { language, level } => {
                let generator = CodeSymbolGenerator::new(*language);
                generator.generate(*level, length)
            },
            LessonType::FingerPair { with_shift, .. } => crate::finger_generator::generate_finger_drills(
                &self.keys,
                length,
                *with_shift,
            ),
            LessonType::Custom { content } => {
                // user-provided content, cut to the requested length
                let have = content.as_str().unicode_len();
                let cut_len = if have < length {
                    have
                } else {
                    length
                };
                let cut = content.as_str().substring_char(0, cut_len);
                String::from_str(cut)
            },
            _ => String::new(),
        }
    }
}

/// Two-key warm-up drills: the tokens `aa` and `bb` alternating, space
/// separated, cut to exactly `length`. Any other key count produces no
/// content.
pub fn generate_two_key_drills(keys: &Vec<char>, length: usize) -> (r: String)
    ensures
        keys@.len() != 2 ==> r@.len() == 0,
        keys@.len() == 2 ==> r@.len() == length,
        drill_chars_ok(keys@, r@),
{
    if keys.len() != 2 {
        let r = String::new();
        return r;
    }
    let a = keys[0];
    let b = keys[1];
    proof {
        assert(keys@.contains(a));
        assert(keys@.contains(b));
    }

    let mut result = String::new();
    let mut built: usize = 0;
    let mut use_second = false;
    while built < length
        invariant
            built <= result@.len(),
            built <= length,
            keys@.contains(a),
            keys@.contains(b),
            drill_chars_ok(keys@, result@),
        decreases length - built,
    {
        if built > 0 {
            push_char(&mut result, ' ');
            built = built + 1;
        }
        if built < length {
            let c = if use_second {
                b
            } else {
                a
            };
            push_char(&mut result, c);
            push_char(&mut result, c);
            use_second = !use_second;
            if 2 >= length - built {
                built = length;
            } else {
                built = built + 2;
            }
        }
    }

    let cut = result.as_str().substring_char(0, length);
    let r = String::from_str(cut);
    proof {
        assert forall|i: int| 0 <= i < r@.len() implies r@[i] == ' ' || keys@.contains(
            #[trigger] r@[i],
        ) by {
            assert(r@[i] == result@[i]);
        }
    }
    r
}

/// Progressive drills over the available keys: repetitions of each key,
/// alternations of every pair, and a few triplets, cycled and cut to
/// exactly `length`. No keys produce no content.
pub fn generate_progressive_drills(keys: &Vec<char>, length: usize) -> (r: String)
    ensures
        keys@.len() == 0 ==> r@.len() == 0,
        keys@.len() > 0 ==> r@.len() == length,
        drill_chars_ok(keys@, r@),
{
    let n = keys.len();
    if n == 0 {
        let r = String::new();
        return r;
    }

    // phase 1: repetitions of each key
    let mut patterns: Vec<String> = Vec::new();
    for i in 0..n
        invariant
            n == keys@.len(),
            patterns@.len() == i,
            forall|k: int|
                0 <= k < patterns@.len() ==> (#[trigger] patterns@[k])@.len() >= 2
                    && drill_chars_ok(keys@, patterns@[k]@),
    {
        let mut p = String::new();
        push_char(&mut p, keys[i]);
        push_char(&mut p, keys[i]);
        proof {
            assert(keys@.contains(keys@[i as int]));
        }
        patterns.push(p);
    }

    // phase 2: alternations of adjacent key pairs
    for i in 0..n
        invariant
            n == keys@.len(),
            patterns@.len() > 0,
            forall|k: int|
                0 <= k < patterns@.len() ==> (#[trigger] patterns@[k])@.len() >= 2
                    && drill_chars_ok(keys@, patterns@[k]@),
    {
        for j in (i + 1)..n
            invariant
                n == keys@.len(),
                i < n,
                patterns@.len() > 0,
                forall|k: int|
                    0 <= k < patterns@.len() ==> (#[trigger] patterns@[k])@.len() >= 2
                        && drill_chars_ok(keys@, patterns@[k]@),
        {
            let mut p = String::new();
            push_char(&mut p, keys[i]);
            push_char(&mut p, keys[j]);
            proof {
                assert(keys@.contains(keys@[i as int]));
                assert(keys@.contains(keys@[j as int]));
            }
            patterns.push(p);
        }
    }

    // phase 3: a few triplets for variety
    if n >= 3 {
        let lim_i = if n < 3 {
            n
        } else {
            3
        };
        for i in 0..lim_i
            invariant
                n == keys@.len(),
                n >= 3,
                lim_i <= n,
                lim_i <= 3,
                patterns@.len() > 0,
                forall|k: int|
                    0 <= k < patterns@.len() ==> (#[trigger] patterns@[k])@.len() >= 2
                        && drill_chars_ok(keys@, patterns@[k]@),
        {
            let lim_j = if n < 4 {
                n
            } else {
                4
            };
            proof {
                assert(i + 1 <= lim_j);
            }
            for j in (i + 1)..lim_j
                invariant
                    n == keys@.len(),
                    n >= 3,
                    i < n,
                    i < 3,
                    lim_j <= n,
                    lim_j <= 4,
                    lim_j >= 3,
                    patterns@.len() > 0,
                    forall|k: int|
                        0 <= k < patterns@.len() ==> (#[trigger] patterns@[k])@.len() >= 2
                            && drill_chars_ok(keys@, patterns@[k]@),
            {
                let lim_k = if n < 5 {
                    n
                } else {
                    5
                };
                proof {
                    assert(j + 1 <= lim_k);
                }
                for k in (j + 1)..lim_k
                    invariant
                        n == keys@.len(),
                        i < n,
                        j < n,
                        lim_k <= n,
                        patterns@.len() > 0,
                        forall|k2: int|
                            0 <= k2 < patterns@.len() ==> (#[trigger] patterns@[k2])@.len() >= 2
                                && drill_chars_ok(keys@, patterns@[k2]@),
                {
                    let mut p = String::new();
                    push_char(&mut p, keys[i]);
                    push_char(&mut p, keys[j]);
                    push_char(&mut p, keys[k]);
                    proof {
                        assert(keys@.contains(keys@[i as int]));
                        assert(keys@.contains(keys@[j as int]));
                        assert(keys@.contains(keys@[k as int]));
                    }
                    patterns.push(p);
                }
            }
        }
    }

    cycle_patterns(&patterns, keys, length)
}

/// Cycle the given patterns, space separated, and cut to exactly
/// `length` characters.
fn cycle_patterns(patterns: &Vec<String>, keys: &Vec<char>, length: usize) -> (r: String)
    requires
        patterns@.len() > 0,
        forall|k: int|
            0 <= k < patterns@.len() ==> (#[trigger] patterns@[k])@.len() >= 2 && drill_chars_ok(
                keys@,
                patterns@[k]@,
            ),
    ensures
        r@.len() == length,
        drill_chars_ok(keys@, r@),
{
    let mut result = String::new();
    let mut built: usize = 0;
    let mut idx: usize = 0;
    while built < length
        invariant
            built <= result@.len(),
            built <= length,
            patterns@.len() > 0,
            forall|k: int|
                0 <= k < patterns@.len() ==> (#[trigger] patterns@[k])@.len() >= 2
                    && drill_chars_ok(keys@, patterns@[k]@),
            drill_chars_ok(keys@, result@),
        decreases length - built,
    {
        if built > 0 {
            push_char(&mut result, ' ');
            built = built + 1;
        }
        if built < length {
            let p = &patterns[idx % patterns.len()];
            let ghost pre = result@;
            result.append(p.as_str());
            proof {
                assert forall|i: int| 0 <= i < result@.len() implies result@[i] == ' '
                    || keys@.contains(#[trigger] result@[i]) by {
                    if i < pre.len() {
                        assert(result@[i] == pre[i]);
                    } else {
                        assert(result@[i] == p@[i - pre.len()]);
                    }
                }
            }
            let tl = p.as_str().unicode_len();
            if tl >= length - built {
                built = length;
            } else {
                built = built + tl;
            }
            idx = if idx == usize::MAX {
                0
            } else {
                idx + 1
            };
        }
    }

    let cut = result.as_str().substring_char(0, length);
    let r = String::from_str(cut);
    proof {
        assert forall|i: int| 0 <= i < r@.len() implies r@[i] == ' ' || keys@.contains(
            #[trigger] r@[i],
        ) by {
            assert(r@[i] == result@[i]);
        }
    }
    r
}

/// Short French words typeable on the home row, cycled and cut to exactly
/// `length` characters.
pub fn generate_words(_keys: &Vec<char>, length: usize) -> (r: String)
    ensures
        r@.len() == length,
{
    proof {
        reveal_strlit("la");
        reveal_strlit("le");
        reveal_strlit("de");
        reveal_strlit("se");
        reveal_strlit("me");
        reveal_strlit("je");
        reveal_strlit("mal");
        reveal_strlit("sel");
        reveal_strlit("les");
        reveal_strlit("des");
        reveal_strlit("mes");
    }
    let mut words: Vec<String> = Vec::new();
    words.push(String::from_str("la"));
    words.push(String::from_str("le"));
    words.push(String::from_str("de"));
    words.push(String::from_str("se"));
    words.push(String::from_str("me"));
    words.push(String::from_str("je"));
    words.push(String::from_str("mal"));
    words.push(String::from_str("sel"));
    words.push(String::from_str("les"));
    words.push(String::from_str("des"));
    words.push(String::from_str("mes"));

    let mut result = String::new();
    let mut built: usize = 0;
    let mut idx: usize = 0;
    while built < length
        invariant
            built <= result@.len(),
            built <= length,
            words@.len() == 11,
            forall|k: int| 0 <= k < words@.len() ==> (#[trigger] words@[k])@.len() >= 2,
        decreases length - built,
    {
        if built > 0 {
            push_char(&mut result, ' ');
            built = built + 1;
        }
        if built < length {
            let w = &words[idx % words.len()];
            result.append(w.as_str());
            let wl = w.as_str().unicode_len();
            if wl >= length - built {
                built = length;
            } else {
                built = built + wl;
            }
            idx = if idx == usize::MAX {
                0
            } else {
                idx + 1
            };
        }
    }

    let cut = result.as_str().substring_char(0, length);
    String::from_str(cut)
}

} // verus!
