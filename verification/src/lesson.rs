//! The lesson catalog: lesson kinds, the key-pair and finger-pair lesson
//! tables, and the AZERTY shift table used when building shifted drills.

use vstd::prelude::*;
use vstd::string::StringExecFns;

use crate::code_symbols::ProgrammingLanguage;

verus! {

/// Language for natural-text lessons.
#[derive(Debug, Clone, Copy, PartialEq, Eq, Structural)]
pub enum Language {
    French,
    English,
}

/// Kind of bigram practice.
#[derive(Debug, Clone, Copy, PartialEq, Eq, Structural)]
pub enum BigramType {
    Natural,
    Code,
}

/// Finger pair combinations for bilateral training.
#[derive(Debug, Clone, Copy, PartialEq, Eq, Structural)]
pub enum FingerPairType {
    Pinky,
    Ring,
    Middle,
    Index,
}

/// Definition of a single key-pair lesson.
#[derive(Debug, Clone, PartialEq)]
pub struct KeyPairLessonDef {
    pub id: u8,
    pub title: String,
    pub description: String,
    pub keys: Vec<char>,
}

/// An inclusive range of lesson ids.
#[derive(Debug, Clone, Copy, PartialEq, Eq, Structural)]
pub struct LessonRange {
    pub start: u8,
    pub end: u8,
}

/// Definition of a key-pair lesson group.
#[derive(Debug, Clone, PartialEq)]
pub struct KeyPairGroupDef {
    pub group_id: u8,
    pub title: String,
    pub lesson_range: LessonRange,
}

/// One entry of the AZERTY shift table.
#[derive(Debug, Clone, Copy, PartialEq, Eq, Structural)]
pub struct ShiftedCharMap {
    pub normal: char,
    pub shifted: char,
}

/// The kinds of lessons the catalog can offer.
#[derive(Debug, Clone, PartialEq)]
pub enum LessonType {
    /// Progressive home-row training.
    HomeRow { level: usize },
    /// One of the 17 individual key-pair lessons.
    KeyPair { lesson_id: u8 },
    /// One of the 4 lesson groups, with or without shift.
    KeyPairGroup { group_id: u8, with_shift: bool },
    Bigram { bigram_type: BigramType, language: Option<Language>, level: usize },
    Trigram { language: Language, level: usize },
    CommonWords { language: Language, level: usize },
    CodeSymbols { language: ProgrammingLanguage, level: usize },
    Adaptive,
    /// Finger-based training by finger pair, level, and shift variant.
    FingerPair { finger_pair: FingerPairType, level: u8, with_shift: bool },
    /// A user-provided lesson carrying its own practice content.
    Custom { content: String },
}

/// A lesson of the catalog.
#[derive(Debug, Clone, PartialEq)]
pub struct Lesson {
    pub lesson_type: LessonType,
    pub title: String,
    pub description: String,
    pub keys: Vec<char>,
}

/// Concatenation of two string fragments.
fn join_str(a: &str, b: &str) -> (r: String)
    ensures
        r@ == a@ + b@,
{
    String::from_str(a).concat(b)
}

impl Lesson {
    pub fn new(lesson_type: LessonType, title: String, description: String, keys: Vec<char>) -> (r:
        Self)
        ensures
            r.lesson_type == lesson_type,
            r.title@ == title@,
            r.description@ == description@,
            r.keys@ == keys@,
    {
        Self { lesson_type, title, description, keys }
    }

    /// The six progressive home-row lessons: two keys, growing subsets,
    /// and finally short words.
    pub fn home_row_lessons() -> (r: Vec<Lesson>)
        ensures
            r@.len() == 6,
            forall|i: int|
                0 <= i < 6 ==> (#[trigger] r@[i]).lesson_type == (LessonType::HomeRow {
                    level: (i + 1) as usize,
                }),
            r@[0].keys@ =~= seq!['f', 'j'],
    {
        let mut v: Vec<Lesson> = Vec::new();
        let mut k1: Vec<char> = Vec::new();
        k1.push('f');
        k1.push('j');
        v.push(
            Lesson::new(
                LessonType::HomeRow { level: 1 },
                String::from_str("Home Row - Level 1"),
                String::from_str("Index fingers: f and j"),
                k1,
            ),
        );
        let mut k2: Vec<char> = Vec::new();
        k2.push('f');
        k2.push('j');
        k2.push('d');
        k2.push('k');
        v.push(
            Lesson::new(
                LessonType::HomeRow { level: 2 },
                String::from_str("Home Row - Level 2"),
                String::from_str("Index and middle fingers"),
                k2,
            ),
        );
        let mut k3: Vec<char> = Vec::new();
        k3.push('f');
        k3.push('j');
        k3.push('d');
        k3.push('k');
        k3.push('s');
        k3.push('l');
        v.push(
            Lesson::new(
                LessonType::HomeRow { level: 3 },
                String::from_str("Home Row - Level 3"),
                String::from_str("Adding the ring fingers"),
                k3,
            ),
        );
        let mut k4: Vec<char> = Vec::new();
        k4.push('f');
        k4.push('j');
        k4.push('d');
        k4.push('k');
        k4.push('s');
        k4.push('l');
        k4.push('g');
        k4.push('h');
        v.push(
            Lesson::new(
                LessonType::HomeRow { level: 4 },
                String::from_str("Home Row - Level 4"),
                String::from_str("Index reaches: g and h"),
                k4,
            ),
        );
        let mut k5: Vec<char> = Vec::new();
        k5.push('q');
        k5.push('s');
        k5.push('d');
        k5.push('f');
        k5.push('g');
        k5.push('h');
        k5.push('j');
        k5.push('k');
        k5.push('l');
        k5.push('m');
        v.push(
            Lesson::new(
                LessonType::HomeRow { level: 5 },
                String::from_str("Home Row - Level 5"),
                String::from_str("The whole home row"),
                k5,
            ),
        );
        let mut k6: Vec<char> = Vec::new();
        k6.push('q');
        k6.push('s');
        k6.push('d');
        k6.push('f');
        k6.push('g');
        k6.push('h');
        k6.push('j');
        k6.push('k');
        k6.push('l');
        k6.push('m');
        v.push(
            Lesson::new(
                LessonType::HomeRow { level: 6 },
                String::from_str("Home Row - Level 6"),
                String::from_str("Short words on the home row"),
                k6,
            ),
        );
        v
    }

    /// The six code-symbol lessons for one programming language.
    pub fn code_symbol_lessons(language: ProgrammingLanguage) -> (r: Vec<Lesson>)
        ensures
            r@.len() == 6,
            forall|i: int|
                0 <= i < 6 ==> (#[trigger] r@[i]).lesson_type == (LessonType::CodeSymbols {
                    language,
                    level: (i + 1) as usize,
                }),
    {
        let lang_name = match language {
            ProgrammingLanguage::TypeScript => "TypeScript",
            ProgrammingLanguage::Rust => "Rust",
            ProgrammingLanguage::Python => "Python",
        };

        let mut v: Vec<Lesson> = Vec::new();
        v.push(
            Lesson::new(
                LessonType::CodeSymbols { language, level: 1 },
                join_str(lang_name, " - Level 1"),
                String::from_str("Basic brackets: () [] {}"),
                Vec::new(),
            ),
        );
        v.push(
            Lesson::new(
                LessonType::CodeSymbols { language, level: 2 },
                join_str(lang_name, " - Level 2"),
                String::from_str("Basic operators: + - * / ="),
                Vec::new(),
            ),
        );
        v.push(
            Lesson::new(
                LessonType::CodeSymbols { language, level: 3 },
                join_str(lang_name, " - Level 3"),
                String::from_str("Comparisons: == != < >"),
                Vec::new(),
            ),
        );
        v.push(
            Lesson::new(
                LessonType::CodeSymbols { language, level: 4 },
                join_str(lang_name, " - Level 4"),
                String::from_str("Arrows & special: -> => ::"),
                Vec::new(),
            ),
        );
        v.push(
            Lesson::new(
                LessonType::CodeSymbols { language, level: 5 },
                join_str(lang_name, " - Level 5"),
                String::from_str("Compound operators: && ||"),
                Vec::new(),
            ),
        );
        v.push(
            Lesson::new(
                LessonType::CodeSymbols { language, level: 6 },
                join_str(lang_name, " - Level 6"),
                String::from_str("Realistic code snippets"),
                Vec::new(),
            ),
        );
        v
    }

    /// The four bigram lessons for a language (or for code bigrams).
    pub fn bigram_lessons(bigram_type: BigramType, language: Option<Language>) -> (r: Vec<Lesson>)
        ensures
            r@.len() == 4,
            forall|i: int|
                0 <= i < 4 ==> (#[trigger] r@[i]).lesson_type == (LessonType::Bigram {
                    bigram_type,
                    language,
                    level: (i + 1) as usize,
                }),
    {
        let lang_name = match bigram_type {
            BigramType::Natural => match language {
                Some(Language::French) => "French",
                Some(Language::English) => "English",
                None => "Natural",
            },
            BigramType::Code => "Code",
        };

        let level4_desc = match (bigram_type, language) {
            (BigramType::Natural, Some(Language::French)) => "Mixed mode: All 40 bigrams (with accents)",
            (BigramType::Natural, Some(Language::English)) => "Mixed mode: All 30 bigrams",
            (BigramType::Code, _) => "Mixed mode: All 10 code bigrams",
            _ => "Mixed mode: All bigrams",
        };

        let mut v: Vec<Lesson> = Vec::new();
        v.push(
            Lesson::new(
                LessonType::Bigram { bigram_type, language, level: 1 },
                join_str(lang_name, " Bigrams - Level 1"),
                String::from_str("Drill mode: Pure repetition"),
                Vec::new(),
            ),
        );
        v.push(
            Lesson::new(
                LessonType::Bigram { bigram_type, language, level: 2 },
                join_str(lang_name, " Bigrams - Level 2"),
                String::from_str("Word mode: Contextual practice"),
                Vec::new(),
            ),
        );
        v.push(
            Lesson::new(
                LessonType::Bigram { bigram_type, language, level: 3 },
                join_str(lang_name, " Bigrams - Level 3"),
                String::from_str("Mixed mode: Realistic text"),
                Vec::new(),
            ),
        );
        v.push(
            Lesson::new(
                LessonType::Bigram { bigram_type, language, level: 4 },
                join_str(lang_name, " Bigrams - Level 4"),
                String::from_str(level4_desc),
                Vec::new(),
            ),
        );
        v
    }

    /// The four trigram lessons for a language.
    pub fn trigram_lessons(language: Language) -> (r: Vec<Lesson>)
        ensures
            r@.len() == 4,
            forall|i: int|
                0 <= i < 4 ==> (#[trigger] r@[i]).lesson_type == (LessonType::Trigram {
                    language,
                    level: (i + 1) as usize,
                }),
    {
        let lang_name = match language {
            Language::French => "French",
            Language::English => "English",
        };
        let level4_desc = match language {
            Language::French => "Mixed mode: All 25 trigrams (with accents)",
            Language::English => "Mixed mode: All 20 trigrams",
        };

        let mut v: Vec<Lesson> = Vec::new();
        v.push(
            Lesson::new(
                LessonType::Trigram { language, level: 1 },
                join_str(lang_name, " Trigrams - Level 1"),
                String::from_str("Drill mode: Pure repetition (5 trigrams)"),
                Vec::new(),
            ),
        );
        v.push(
            Lesson::new(
                LessonType::Trigram { language, level: 2 },
                join_str(lang_name, " Trigrams - Level 2"),
                String::from_str("Word mode: Contextual practice (10 trigrams)"),
                Vec::new(),
            ),
        );
        v.push(
            Lesson::new(
                LessonType::Trigram { language, level: 3 },
                join_str(lang_name, " Trigrams - Level 3"),
                String::from_str("Mixed mode: Realistic text (20 trigrams)"),
                Vec::new(),
            ),
        );
        v.push(
            Lesson::new(
                LessonType::Trigram { language, level: 4 },
                join_str(lang_name, " Trigrams - Level 4"),
                String::from_str(level4_desc),
                Vec::new(),
            ),
        );
        v
    }

    /// The four common-word lessons for a language.
    pub fn common_word_lessons(language: Language) -> (r: Vec<Lesson>)
        ensures
            r@.len() == 4,
            forall|i: int|
                0 <= i < 4 ==> (#[trigger] r@[i]).lesson_type == (LessonType::CommonWords {
                    language,
                    level: (i + 1) as usize,
                }),
    {
        let lang_name = match language {
            Language::French => "French",
            Language::English => "English",
        };

        let mut v: Vec<Lesson> = Vec::new();
        v.push(
            Lesson::new(
                LessonType::CommonWords { language, level: 1 },
                join_str(lang_name, " Words - Level 1"),
                String::from_str("Top 50 most common words"),
                Vec::new(),
            ),
        );
        v.push(
            Lesson::new(
                LessonType::CommonWords { language, level: 2 },
                join_str(lang_name, " Words - Level 2"),
                String::from_str("Top 100 most common words"),
                Vec::new(),
            ),
        );
        v.push(
            Lesson::new(
                LessonType::CommonWords { language, level: 3 },
                join_str(lang_name, " Words - Level 3"),
                String::from_str("Top 200 most common words"),
                Vec::new(),
            ),
        );
        v.push(
            Lesson::new(
                LessonType::CommonWords { language, level: 4 },
                join_str(lang_name, " Words - Level 4"),
                String::from_str("All 500 most common words"),
                Vec::new(),
            ),
        );
        v
    }

    /// The adaptive lesson entry.
    pub fn adaptive_lesson() -> (r: Self)
        ensures
            r.lesson_type == LessonType::Adaptive,
    {
        Lesson::new(
            LessonType::Adaptive,
            String::from_str("Adaptive Mode"),
            String::from_str("Personalized practice based on your weak areas"),
            Vec::new(),
        )
    }

    /// All 17 individual key-pair lessons.
    pub fn key_pair_lessons() -> (r: Vec<Lesson>)
        ensures
            r@.len() == 17,
            forall|i: int|
                0 <= i < 17 ==> (#[trigger] r@[i]).lesson_type == (LessonType::KeyPair {
                    lesson_id: (i + 1) as u8,
                }),
            r@[0].keys@ =~= seq!['f', 'd', 'j', 'k'],
    {
        let defs = key_pair_lesson_defs();
        let mut v: Vec<Lesson> = Vec::new();
        let n = defs.len();
        for i in 0..n
            invariant
                n == defs@.len(),
                n == 17,
                forall|j: int|
                    0 <= j < 17 ==> (#[trigger] defs@[j]).id == j + 1,
                defs@[0].keys@ =~= seq!['f', 'd', 'j', 'k'],
                v@.len() == i,
                forall|j: int|
                    0 <= j < i ==> (#[trigger] v@[j]).lesson_type == (LessonType::KeyPair {
                        lesson_id: (j + 1) as u8,
                    }),
                forall|j: int| 0 <= j < i ==> (#[trigger] v@[j]).keys@ == defs@[j].keys@,
        {
            let def = &defs[i];
            let mut keys: Vec<char> = Vec::new();
            let nk = def.keys.len();
            for k in 0..nk
                invariant
                    nk == def.keys@.len(),
                    keys@ =~= def.keys@.take(k as int),
            {
                keys.push(def.keys[k]);
                proof {
                    assert(keys@ =~= def.keys@.take(k + 1));
                }
            }
            proof {
                assert(keys@ =~= def.keys@);
            }
            v.push(
                Lesson::new(
                    LessonType::KeyPair { lesson_id: def.id },
                    def.title.clone(),
                    def.description.clone(),
                    keys,
                ),
            );
        }
        v
    }

    /// The four key-pair group lessons, with or without shift variants.
    pub fn key_pair_group_lessons(with_shift: bool) -> (r: Vec<Lesson>)
        ensures
            r@.len() == 4,
            forall|i: int|
                0 <= i < 4 ==> (#[trigger] r@[i]).lesson_type == (LessonType::KeyPairGroup {
                    group_id: (i + 1) as u8,
                    with_shift,
                }),
    {
        let groups = key_pair_group_defs();
        let mut v: Vec<Lesson> = Vec::new();
        let n = groups.len();
        for i in 0..n
            invariant
                n == groups@.len(),
                n == 4,
                forall|j: int| 0 <= j < 4 ==> (#[trigger] groups@[j]).group_id == j + 1,
                v@.len() == i,
                forall|j: int|
                    0 <= j < i ==> (#[trigger] v@[j]).lesson_type == (LessonType::KeyPairGroup {
                        group_id: (j + 1) as u8,
                        with_shift,
                    }),
        {
            let group = &groups[i];
            let title = if with_shift {
                group.title.clone().concat(" + Shift")
            } else {
                group.title.clone()
            };
            let description = if with_shift {
                String::from_str("Mixed case and symbols")
            } else {
                String::from_str("Combined practice")
            };
            v.push(
                Lesson::new(
                    LessonType::KeyPairGroup { group_id: group.group_id, with_shift },
                    title,
                    description,
                    Vec::new(),
                ),
            );
        }
        v
    }

    /// All 24 finger-based lessons: 4 finger pairs, 3 levels, with and
    /// without shift.
    pub fn finger_pair_lessons() -> (r: Vec<Lesson>)
        ensures
            r@.len() == 24,
            forall|i: int|
                0 <= i < 24 ==> (#[trigger] r@[i]).lesson_type matches LessonType::FingerPair {
                    ..
                },
    {
        let mut v: Vec<Lesson> = Vec::new();
        Self::push_finger_lessons(&mut v, FingerPairType::Pinky);
        Self::push_finger_lessons(&mut v, FingerPairType::Ring);
        Self::push_finger_lessons(&mut v, FingerPairType::Middle);
        Self::push_finger_lessons(&mut v, FingerPairType::Index);
        v
    }

    /// The six lessons for one finger pair: three levels, each in a base
    /// and a shifted variant.
    fn push_finger_lessons(v: &mut Vec<Lesson>, finger_pair: FingerPairType)
        ensures
            final(v)@.len() == old(v)@.len() + 6,
            forall|i: int|
                old(v)@.len() <= i < final(v)@.len() ==> (#[trigger] final(v)@[i]).lesson_type
                    matches LessonType::FingerPair { .. },
            forall|i: int| 0 <= i < old(v)@.len() ==> final(v)@[i] == old(v)@[i],
    {
        let mut level: u8 = 1;
        while level <= 3
            invariant
                1 <= level <= 4,
                v@.len() == old(v)@.len() + 2 * (level - 1),
                forall|i: int|
                    old(v)@.len() <= i < v@.len() ==> (#[trigger] v@[i]).lesson_type
                        matches LessonType::FingerPair { .. },
                forall|i: int| 0 <= i < old(v)@.len() ==> v@[i] == old(v)@[i],
            decreases 4 - level,
        {
            v.push(
                Lesson::new(
                    LessonType::FingerPair { finger_pair, level, with_shift: false },
                    Self::finger_pair_title(finger_pair, level, false),
                    Self::finger_pair_description(finger_pair, level, false),
                    Vec::new(),
                ),
            );
            v.push(
                Lesson::new(
                    LessonType::FingerPair { finger_pair, level, with_shift: true },
                    Self::finger_pair_title(finger_pair, level, true),
                    Self::finger_pair_description(finger_pair, level, true),
                    Vec::new(),
                ),
            );
            level = level + 1;
        }
    }

    fn finger_pair_title(pair: FingerPairType, level: u8, with_shift: bool) -> (r: String) {
        let pair_name = match pair {
            FingerPairType::Pinky => "Pinky Fingers",
            FingerPairType::Ring => "Ring Fingers",
            FingerPairType::Middle => "Middle Fingers",
            FingerPairType::Index => "Index Fingers",
        };
        let level_name = match level {
            1u8 => " - Home Row",
            2u8 => " - Extended",
            3u8 => " - All Keys",
            _ => " - Unknown",
        };
        let base = join_str(pair_name, level_name);
        if with_shift {
            base.concat(" + Shift")
        } else {
            base
        }
    }

    fn finger_pair_description(pair: FingerPairType, level: u8, with_shift: bool) -> (r: String) {
        let level_desc = match level {
            1u8 => "Home row keys only",
            2u8 => "Home + top/bottom rows",
            3u8 => "All keys including numbers and symbols",
            _ => "Unknown level",
        };
        if with_shift {
            join_str(level_desc, " with mixed case")
        } else {
            String::from_str(level_desc)
        }
    }
}

/// The 17 key-pair lesson definitions, ids 1 ..= 17 in order.
pub fn key_pair_lesson_defs() -> (r: Vec<KeyPairLessonDef>)
    ensures
        r@.len() == 17,
        forall|i: int| 0 <= i < 17 ==> (#[trigger] r@[i]).id == i + 1,
        r@[0].keys@ =~= seq!['f', 'd', 'j', 'k'],
{
    let mut v: Vec<KeyPairLessonDef> = Vec::new();
    v.push(def(1, "f-d  j-k", "Index/middle fingers", "fdjk"));
    v.push(def(2, "f-g  j-h", "Index reaches", "fgjh"));
    v.push(def(3, "s-a  l-;", "Ring finger pairs", "sal;"));
    v.push(def(4, "d-e  k-i", "Middle reaches up", "deki"));
    v.push(def(5, "f-r  j-u", "Index diagonal", "frju"));
    v.push(def(6, "f-t  j-y", "Index extended", "ftjy"));
    v.push(def(7, "s-w  l-o", "Ring top/bottom", "swlo"));
    v.push(def(8, "a-q  ;-p", "Pinky reaches", "aq;p"));
    v.push(def(9, "f-v  j-m", "Index to bottom", "fvjm"));
    v.push(def(10, "f-b  j-n", "Index bottom extended", "fbjn"));
    v.push(def(11, "d-c  k-,", "Middle to bottom", "dck,"));
    v.push(def(12, "a-z  s-x", "Bottom row practice", "azsx"));
    v.push(def(13, "1 2 3 4 5 6  7 8 9 0", "Number row", "1234567890"));
    v.push(def(14, "/ ? : . '  - _", "Punctuation", "/?:.' -_"));
    v.push(def(15, "[ ] ( ) { }  < > | \\", "Brackets", "[](){}<>|\\"));
    v.push(def(16, "' - _ ! _ + =  & * ( )", "Symbols", "'-_!_+=&*()"));
    v.push(def(17, "@ # $ % ^ &  & * ( )", "Special chars", "@#$%^&&*()"));
    proof {
        reveal_strlit("fdjk");
        assert(v@[0].keys@ =~= seq!['f', 'd', 'j', 'k']);
    }
    v
}

/// Build one key-pair lesson definition; `keys` is given as a string of
/// its characters.
fn def(id: u8, title: &str, description: &str, keys: &str) -> (r: KeyPairLessonDef)
    ensures
        r.id == id,
        r.title@ == title@,
        r.description@ == description@,
        r.keys@ == keys@,
{
    KeyPairLessonDef {
        id,
        title: String::from_str(title),
        description: String::from_str(description),
        keys: crate::util::str_chars(keys),
    }
}

/// The four key-pair lesson groups.
pub fn key_pair_group_defs() -> (r: Vec<KeyPairGroupDef>)
    ensures
        r@.len() == 4,
        forall|i: int| 0 <= i < 4 ==> (#[trigger] r@[i]).group_id == i + 1,
{
    let mut v: Vec<KeyPairGroupDef> = Vec::new();
    v.push(
        KeyPairGroupDef {
            group_id: 1,
            title: String::from_str("Lessons 1-4"),
            lesson_range: LessonRange { start: 1, end: 4 },
        },
    );
    v.push(
        KeyPairGroupDef {
            group_id: 2,
            title: String::from_str("Lessons 5-8"),
            lesson_range: LessonRange { start: 5, end: 8 },
        },
    );
    v.push(
        KeyPairGroupDef {
            group_id: 3,
            title: String::from_str("Lessons 9-12"),
            lesson_range: LessonRange { start: 9, end: 12 },
        },
    );
    v.push(
        KeyPairGroupDef {
            group_id: 4,
            title: String::from_str("Lessons 13-17"),
            lesson_range: LessonRange { start: 13, end: 17 },
        },
    );
    v
}

/// The rows of the AZERTY shift table, as a spec value.
pub open spec fn azerty_shift_map_rows() -> Seq<ShiftedCharMap> {
    seq![
        ShiftedCharMap { normal: 'a', shifted: 'A' },
        ShiftedCharMap { normal: 'b', shifted: 'B' },
        ShiftedCharMap { normal: 'c', shifted: 'C' },
        ShiftedCharMap { normal: 'd', shifted: 'D' },
        ShiftedCharMap { normal: 'e', shifted: 'E' },
        ShiftedCharMap { normal: 'f', shifted: 'F' },
        ShiftedCharMap { normal: 'g', shifted: 'G' },
        ShiftedCharMap { normal: 'h', shifted: 'H' },
        ShiftedCharMap { normal: 'i', shifted: 'I' },
        ShiftedCharMap { normal: 'j', shifted: 'J' },
        ShiftedCharMap { normal: 'k', shifted: 'K' },
        ShiftedCharMap { normal: 'l', shifted: 'L' },
        ShiftedCharMap { normal: 'm', shifted: 'M' },
        ShiftedCharMap { normal: 'n', shifted: 'N' },
        ShiftedCharMap { normal: 'o', shifted: 'O' },
        ShiftedCharMap { normal: 'p', shifted: 'P' },
        ShiftedCharMap { normal: 'q', shifted: 'Q' },
        ShiftedCharMap { normal: 'r', shifted: 'R' },
        ShiftedCharMap { normal: 's', shifted: 'S' },
        ShiftedCharMap { normal: 't', shifted: 'T' },
        ShiftedCharMap { normal: 'u', shifted: 'U' },
        ShiftedCharMap { normal: 'v', shifted: 'V' },
        ShiftedCharMap { normal: 'w', shifted: 'W' },
        ShiftedCharMap { normal: 'x', shifted: 'X' },
        ShiftedCharMap { normal: 'y', shifted: 'Y' },
        ShiftedCharMap { normal: 'z', shifted: 'Z' },
        ShiftedCharMap { normal: '&', shifted: '1' },
        ShiftedCharMap { normal: '\u{e9}', shifted: '2' },
        ShiftedCharMap { normal: '"', shifted: '3' },
        ShiftedCharMap { normal: '\'', shifted: '4' },
        ShiftedCharMap { normal: '(', shifted: '5' },
        ShiftedCharMap { normal: '-', shifted: '6' },
        ShiftedCharMap { normal: '\u{e8}', shifted: '7' },
        ShiftedCharMap { normal: '_', shifted: '8' },
        ShiftedCharMap { normal: '\u{e7}', shifted: '9' },
        ShiftedCharMap { normal: '\u{e0}', shifted: '0' },
        ShiftedCharMap { normal: ';', shifted: '.' },
        ShiftedCharMap { normal: ':', shifted: '/' },
        ShiftedCharMap { normal: '!', shifted: '\u{a7}' },
    ]
}

/// The AZERTY shift table: letters to uppercase, number-row symbols to
/// digits, and a few punctuation pairs.
pub fn azerty_shift_map() -> (r: Vec<ShiftedCharMap>)
    ensures
        r@ == azerty_shift_map_rows(),
{
    let mut v: Vec<ShiftedCharMap> = Vec::new();
    v.push(ShiftedCharMap { normal: 'a', shifted: 'A' });
    v.push(ShiftedCharMap { normal: 'b', shifted: 'B' });
    v.push(ShiftedCharMap { normal: 'c', shifted: 'C' });
    v.push(ShiftedCharMap { normal: 'd', shifted: 'D' });
    v.push(ShiftedCharMap { normal: 'e', shifted: 'E' });
    v.push(ShiftedCharMap { normal: 'f', shifted: 'F' });
    v.push(ShiftedCharMap { normal: 'g', shifted: 'G' });
    v.push(ShiftedCharMap { normal: 'h', shifted: 'H' });
    v.push(ShiftedCharMap { normal: 'i', shifted: 'I' });
    v.push(ShiftedCharMap { normal: 'j', shifted: 'J' });
    v.push(ShiftedCharMap { normal: 'k', shifted: 'K' });
    v.push(ShiftedCharMap { normal: 'l', shifted: 'L' });
    v.push(ShiftedCharMap { normal: 'm', shifted: 'M' });
    v.push(ShiftedCharMap { normal: 'n', shifted: 'N' });
    v.push(ShiftedCharMap { normal: 'o', shifted: 'O' });
    v.push(ShiftedCharMap { normal: 'p', shifted: 'P' });
    v.push(ShiftedCharMap { normal: 'q', shifted: 'Q' });
    v.push(ShiftedCharMap { normal: 'r', shifted: 'R' });
    v.push(ShiftedCharMap { normal: 's', shifted: 'S' });
    v.push(ShiftedCharMap { normal: 't', shifted: 'T' });
    v.push(ShiftedCharMap { normal: 'u', shifted: 'U' });
    v.push(ShiftedCharMap { normal: 'v', shifted: 'V' });
    v.push(ShiftedCharMap { normal: 'w', shifted: 'W' });
    v.push(ShiftedCharMap { normal: 'x', shifted: 'X' });
    v.push(ShiftedCharMap { normal: 'y', shifted: 'Y' });
    v.push(ShiftedCharMap { normal: 'z', shifted: 'Z' });
    v.push(ShiftedCharMap { normal: '&', shifted: '1' });
    v.push(ShiftedCharMap { normal: '\u{e9}', shifted: '2' });
    v.push(ShiftedCharMap { normal: '"', shifted: '3' });
    v.push(ShiftedCharMap { normal: '\'', shifted: '4' });
    v.push(ShiftedCharMap { normal: '(', shifted: '5' });
    v.push(ShiftedCharMap { normal: '-', shifted: '6' });
    v.push(ShiftedCharMap { normal: '\u{e8}', shifted: '7' });
    v.push(ShiftedCharMap { normal: '_', shifted: '8' });
    v.push(ShiftedCharMap { normal: '\u{e7}', shifted: '9' });
    v.push(ShiftedCharMap { normal: '\u{e0}', shifted: '0' });
    v.push(ShiftedCharMap { normal: ';', shifted: '.' });
    v.push(ShiftedCharMap { normal: ':', shifted: '/' });
    v.push(ShiftedCharMap { normal: '!', shifted: '\u{a7}' });
    proof {
        assert(v@ =~= azerty_shift_map_rows());
    }
    v
}

/// The shifted variant of `c` on AZERTY, if the table lists one: the
/// table maps `c` to the result, and a `None` means the table does not
/// list `c` at all.
pub fn get_shifted_char(c: char) -> (r: Option<char>)
    ensures
        ({
            let table = azerty_shift_map_rows();
            match r {
                Some(s) => exists|i: int|
                    0 <= i < table.len() && #[trigger] table[i] == (ShiftedCharMap {
                        normal: c,
                        shifted: s,
                    }),
                None => forall|i: int| 0 <= i < table.len() ==> (#[trigger] table[i]).normal != c,
            }
        }),
{
    let table = azerty_shift_map();
    let n = table.len();
    for i in 0..n
        invariant
            n == table@.len(),
            table@ == azerty_shift_map_rows(),
            forall|j: int| 0 <= j < i ==> (#[trigger] table@[j]).normal != c,
    {
        if table[i].normal == c {
            let s = table[i].shifted;
            proof {
                assert(table@[i as int] == (ShiftedCharMap { normal: c, shifted: s }));
            }
            return Some(s);
        }
    }
    None
}

} // verus!
