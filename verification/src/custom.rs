//! Parsing of user-provided lesson files: the YAML-style front matter
//! lines and the de-duplication of lesson titles. The file-system side
//! (scanning directories, reading files) lives outside the library; only
//! plain text comes in here.

use vstd::prelude::*;
use vstd::string::StringExecFns;

use crate::lesson::Lesson;
use crate::util::{push_char, str_chars};

verus! {

/// Metadata extracted from the front matter.
#[derive(Debug, Clone, PartialEq)]
pub struct CustomLessonMetadata {
    pub title: Option<String>,
    pub description: Option<String>,
}

impl Default for CustomLessonMetadata {
    /// No metadata at all.
    fn default() -> (r: Self)
        ensures
            r.title is None,
            r.description is None,
    {
        CustomLessonMetadata { title: None, description: None }
    }
}

/// A parsed lesson file: its metadata and its practice content.
#[derive(Debug, Clone, PartialEq)]
pub struct ParsedMarkdown {
    pub metadata: CustomLessonMetadata,
    pub content: String,
}

/// What can go wrong when reading a custom lesson file.
#[derive(Debug, Clone, PartialEq)]
pub enum ParseError {
    /// The file could not be read; carries the I/O error's message.
    IoError(String),
    InvalidFrontMatter(String),
    EmptyContent,
    FileTooLarge(usize),
}

/// Characters the YAML-style parser strips from both ends of a fragment.
pub open spec fn is_space(c: char) -> bool {
    c == ' ' || c == '\t'
}

pub open spec fn trim_front(s: Seq<char>) -> Seq<char>
    decreases s.len(),
{
    if s.len() > 0 && is_space(s[0]) {
        trim_front(s.drop_first())
    } else {
        s
    }
}

pub open spec fn trim_back(s: Seq<char>) -> Seq<char>
    decreases s.len(),
{
    if s.len() > 0 && is_space(s.last()) {
        trim_back(s.drop_last())
    } else {
        s
    }
}

/// The fragment with the surrounding spaces removed.
pub open spec fn trim_spec(s: Seq<char>) -> Seq<char> {
    trim_back(trim_front(s))
}

proof fn lemma_trim_front(s: Seq<char>, lo: int)
    requires
        0 <= lo <= s.len(),
        forall|j: int| 0 <= j < lo ==> is_space(s[j]),
        lo < s.len() ==> !is_space(s[lo]),
    ensures
        trim_front(s) == s.skip(lo),
    decreases lo,
{
    if lo == 0 {
        assert(s.skip(0) =~= s);
    } else {
        lemma_trim_front(s.drop_first(), lo - 1);
        assert(s.drop_first().skip(lo - 1) =~= s.skip(lo));
    }
}

proof fn lemma_trim_back(s: Seq<char>, hi: int)
    requires
        0 <= hi <= s.len(),
        forall|j: int| hi <= j < s.len() ==> is_space(s[j]),
        hi > 0 ==> !is_space(s[hi - 1]),
    ensures
        trim_back(s) == s.take(hi),
    decreases s.len(),
{
    if hi == s.len() {
        assert(s.take(hi) =~= s);
    } else {
        lemma_trim_back(s.drop_last(), hi);
        assert(s.drop_last().take(hi) =~= s.take(hi));
    }
}

/// Strip the spaces off both ends.
fn trim_chars(cs: &Vec<char>) -> (r: Vec<char>)
    ensures
        r@ == trim_spec(cs@),
{
    let n = cs.len();
    let mut lo: usize = 0;
    while lo < n && (cs[lo] == ' ' || cs[lo] == '\t')
        invariant
            n == cs@.len(),
            lo <= n,
            forall|j: int| 0 <= j < lo ==> is_space(cs@[j]),
        decreases n - lo,
    {
        lo = lo + 1;
    }
    let mut hi: usize = n;
    while hi > lo && (cs[hi - 1] == ' ' || cs[hi - 1] == '\t')
        invariant
            n == cs@.len(),
            lo <= hi <= n,
            forall|j: int| 0 <= j < lo ==> is_space(cs@[j]),
            lo < n ==> !is_space(cs@[lo as int]),
            forall|j: int| hi <= j < n ==> is_space(cs@[j]),
        decreases hi,
    {
        hi = hi - 1;
    }
    proof {
        lemma_trim_front(cs@, lo as int);
        lemma_trim_back(cs@.skip(lo as int), hi - lo);
        assert(cs@.skip(lo as int).take(hi - lo) =~= cs@.subrange(lo as int, hi as int));
    }
    let mut r: Vec<char> = Vec::new();
    for i in lo..hi
        invariant
            n == cs@.len(),
            lo <= hi <= n,
            r@ =~= cs@.subrange(lo as int, i as int),
    {
        r.push(cs[i]);
        proof {
            assert(r@ =~= cs@.subrange(lo as int, i + 1));
        }
    }
    proof {
        assert(r@ =~= trim_spec(cs@));
    }
    r
}

/// Index `i` is the first colon of `s`.
pub open spec fn first_colon_at(s: Seq<char>, i: int) -> bool {
    0 <= i < s.len() && s[i] == ':' && forall|j: int| 0 <= j < i ==> s[j] != ':'
}

/// Parse one `key: value` front-matter line: the line splits at its first
/// colon, both sides are trimmed, and both must be non-empty. A line
/// without a colon, or with an empty key or value, yields nothing.
pub fn parse_yaml_line(line: &str) -> (r: Option<(String, String)>)
    ensures
        match r {
            Some(kv) => exists|i: int|
                #[trigger] first_colon_at(line@, i) && kv.0@ == trim_spec(line@.take(i)) && kv.1@
                    == trim_spec(line@.skip(i + 1)) && kv.0@.len() > 0 && kv.1@.len() > 0,
            None => (forall|i: int| !first_colon_at(line@, i)) || (exists|i: int|
                #[trigger] first_colon_at(line@, i) && (trim_spec(line@.take(i)).len() == 0
                    || trim_spec(line@.skip(i + 1)).len() == 0)),
        },
{
    let cs = str_chars(line);
    let n = cs.len();

    // find the first colon
    let mut colon: Option<usize> = None;
    let mut i: usize = 0;
    while i < n && colon.is_none()
        invariant
            i <= n,
            n == cs@.len(),
            cs@ == line@,
            forall|j: int| 0 <= j < i ==> cs@[j] != ':',
            colon matches Some(c) ==> first_colon_at(line@, c as int) && c < n,
        decreases n - i + (if colon is None { 1int } else { 0int }),
    {
        if cs[i] == ':' {
            colon = Some(i);
            proof {
                assert(first_colon_at(line@, i as int));
            }
        } else {
            i = i + 1;
        }
    }
    let ci = match colon {
        Some(ci) => ci,
        None => {
            proof {
                assert(forall|j: int| 0 <= j < line@.len() ==> line@[j] != ':');
                assert(forall|j: int| !first_colon_at(line@, j));
            }
            return None;
        },
    };

    // split and trim both sides
    let mut key_part: Vec<char> = Vec::new();
    for i in 0..ci
        invariant
            ci < cs@.len(),
            cs@ == line@,
            key_part@ =~= cs@.take(i as int),
    {
        key_part.push(cs[i]);
        proof {
            assert(key_part@ =~= cs@.take(i + 1));
        }
    }
    let mut value_part: Vec<char> = Vec::new();
    for i in (ci + 1)..n
        invariant
            ci < n,
            n == cs@.len(),
            cs@ == line@,
            value_part@ =~= cs@.subrange(ci + 1, i as int),
    {
        value_part.push(cs[i]);
        proof {
            assert(value_part@ =~= cs@.subrange(ci + 1, i + 1));
        }
    }
    proof {
        assert(cs@.subrange(ci + 1, n as int) =~= cs@.skip(ci + 1));
    }
    let key = trim_chars(&key_part);
    let value = trim_chars(&value_part);
    if key.len() == 0 || value.len() == 0 {
        return None;
    }

    let mut k = String::new();
    let nk = key.len();
    for i in 0..nk
        invariant
            nk == key@.len(),
            k@ =~= key@.take(i as int),
    {
        push_char(&mut k, key[i]);
        proof {
            assert(k@ =~= key@.take(i + 1));
        }
    }
    let mut v = String::new();
    let nv = value.len();
    for i in 0..nv
        invariant
            nv == value@.len(),
            v@ =~= value@.take(i as int),
    {
        push_char(&mut v, value[i]);
        proof {
            assert(v@ =~= value@.take(i + 1));
        }
    }
    proof {
        assert(k@ =~= key@);
        assert(v@ =~= value@);
    }
    Some((k, v))
}

/// One decimal digit as a character.
pub open spec fn spec_digit(d: nat) -> char {
    if d == 0 {
        '0'
    } else if d == 1 {
        '1'
    } else if d == 2 {
        '2'
    } else if d == 3 {
        '3'
    } else if d == 4 {
        '4'
    } else if d == 5 {
        '5'
    } else if d == 6 {
        '6'
    } else if d == 7 {
        '7'
    } else if d == 8 {
        '8'
    } else {
        '9'
    }
}

/// The decimal digits of `n`, most significant first.
pub open spec fn dec_digits(n: nat) -> Seq<char>
    decreases n,
{
    if n < 10 {
        seq![spec_digit(n)]
    } else {
        dec_digits(n / 10).push(spec_digit(n % 10))
    }
}

/// Append the decimal form of `n`.
fn push_decimal(s: &mut String, n: usize)
    ensures
        final(s)@ == old(s)@ + dec_digits(n as nat),
    decreases n,
{
    if n < 10 {
        let d: char = match n {
            0usize => '0',
            1usize => '1',
            2usize => '2',
            3usize => '3',
            4usize => '4',
            5usize => '5',
            6usize => '6',
            7usize => '7',
            8usize => '8',
            _ => '9',
        };
        push_char(s, d);
        proof {
            assert(final(s)@ =~= old(s)@ + dec_digits(n as nat));
        }
    } else {
        push_decimal(s, n / 10);
        let d: char = match n % 10 {
            0usize => '0',
            1usize => '1',
            2usize => '2',
            3usize => '3',
            4usize => '4',
            5usize => '5',
            6usize => '6',
            7usize => '7',
            8usize => '8',
            _ => '9',
        };
        push_char(s, d);
        proof {
            assert(final(s)@ =~= old(s)@ + dec_digits(n as nat));
        }
    }
}

/// How many of the first `hi` lessons carry title `t`.
pub open spec fn count_titles(s: Seq<Lesson>, t: Seq<char>, hi: int) -> int
    decreases hi,
{
    if hi <= 0 {
        0
    } else {
        count_titles(s, t, hi - 1) + if s[hi - 1].title@ == t {
            1int
        } else {
            0int
        }
    }
}

/// A title snapshot counts exactly like the lessons it was taken from.
proof fn lemma_counts_agree(titles: Seq<String>, s: Seq<Lesson>, t: Seq<char>, hi: int)
    requires
        0 <= hi <= titles.len(),
        hi <= s.len(),
        forall|j: int| 0 <= j < hi ==> (#[trigger] titles[j])@ == s[j].title@,
    ensures
        count_titles_str(titles, t, hi) == count_titles(s, t, hi),
    decreases hi,
{
    if hi > 0 {
        lemma_counts_agree(titles, s, t, hi - 1);
    }
}

/// De-duplicate lesson titles: every occurrence of a repeated title gets
/// its occurrence number appended, as in `Same (1)`, `Same (2)`; unique
/// titles stay as they are. Nothing else about a lesson changes.
pub fn deduplicate_titles(lessons: &mut Vec<Lesson>)
    ensures
        final(lessons)@.len() == old(lessons)@.len(),
        forall|i: int|
            0 <= i < old(lessons)@.len() ==> {
                let l0 = old(lessons)@[i];
                let l1 = #[trigger] final(lessons)@[i];
                &&& l1.lesson_type == l0.lesson_type
                &&& l1.description == l0.description
                &&& l1.keys == l0.keys
                &&& (count_titles(old(lessons)@, l0.title@, old(lessons)@.len() as int) == 1
                    ==> l1.title@ == l0.title@)
                &&& (count_titles(old(lessons)@, l0.title@, old(lessons)@.len() as int) > 1
                    ==> l1.title@ == l0.title@ + " ("@ + dec_digits(
                    count_titles(old(lessons)@, l0.title@, i + 1) as nat,
                ) + ")"@)
            },
{
    let ghost orig = lessons@;
    let n = lessons.len();

    // snapshot the original titles: later mutations must not disturb
    // the occurrence counting
    let mut titles: Vec<String> = Vec::new();
    for i in 0..n
        invariant
            n == lessons@.len(),
            lessons@ == orig,
            titles@.len() == i,
            forall|j: int| 0 <= j < i ==> (#[trigger] titles@[j])@ == orig[j].title@,
    {
        titles.push(lessons[i].title.clone());
    }

    for i in 0..n
        invariant
            n == lessons@.len(),
            n == orig.len(),
            titles@.len() == n,
            forall|j: int| 0 <= j < n ==> (#[trigger] titles@[j])@ == orig[j].title@,
            forall|j: int| i <= j < n ==> #[trigger] lessons@[j] == orig[j],
            forall|j: int|
                0 <= j < i ==> {
                    let l0 = orig[j];
                    let l1 = #[trigger] lessons@[j];
                    &&& l1.lesson_type == l0.lesson_type
                    &&& l1.description == l0.description
                    &&& l1.keys == l0.keys
                    &&& (count_titles(orig, l0.title@, n as int) == 1 ==> l1.title@ == l0.title@)
                    &&& (count_titles(orig, l0.title@, n as int) > 1 ==> l1.title@ == l0.title@
                        + " ("@ + dec_digits(count_titles(orig, l0.title@, j + 1) as nat) + ")"@)
                },
    {
        let total = count_matching(&titles, &titles[i], n);
        proof {
            lemma_counts_agree(titles@, orig, titles@[i as int]@, n as int);
        }
        if total > 1 {
            let occurrence = count_matching(&titles, &titles[i], i + 1);
            proof {
                lemma_counts_agree(titles@, orig, titles@[i as int]@, i + 1);
            }
            let mut t = titles[i].clone();
            t.append(" (");
            push_decimal(&mut t, occurrence);
            t.append(")");
            let entry = &mut lessons[i];
            entry.title = t;
        }
    }
}

/// How many of the first `hi` titles equal `t`.
fn count_matching(titles: &Vec<String>, t: &String, hi: usize) -> (r: usize)
    requires
        hi <= titles@.len(),
    ensures
        r == count_titles_str(titles@, t@, hi as int),
        r <= hi,
{
    let mut count: usize = 0;
    for j in 0..hi
        invariant
            hi <= titles@.len(),
            count == count_titles_str(titles@, t@, j as int),
            count <= j,
    {
        if titles[j] == *t {
            count = count + 1;
        }
    }
    count
}

/// How many of the first `hi` strings equal `t`.
pub open spec fn count_titles_str(s: Seq<String>, t: Seq<char>, hi: int) -> int
    decreases hi,
{
    if hi <= 0 {
        0
    } else {
        count_titles_str(s, t, hi - 1) + if s[hi - 1]@ == t {
            1int
        } else {
            0int
        }
    }
}

} // verus!
