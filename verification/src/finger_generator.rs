//! Finger-pair training: extracting the keys a finger pair covers at a
//! difficulty level, and generating drill content over them.

use vstd::prelude::*;
use vstd::string::StringExecFns;

use crate::keyboard::{AzertyLayout, Finger, RowType};
use crate::lesson::FingerPairType;
use crate::util::{draw_entropy, push_char};

verus! {

/// Strictly ascending by code point; implies distinctness.
pub open spec fn sorted_strict(s: Seq<char>) -> bool {
    forall|i: int, j: int| 0 <= i < j < s.len() ==> (s[i] as u32) < (s[j] as u32)
}

/// `c` is produced by a key of `rows` struck by one of the two fingers,
/// in a row of the allowed types: as its base character, or (when shift
/// drills are requested) as its shifted variant.
pub open spec fn finger_key_listed(
    rows: Seq<crate::keyboard::KeyboardRow>,
    lf: Finger,
    rf: Finger,
    with_shift: bool,
    allowed: Seq<RowType>,
    c: char,
) -> bool {
    exists|i: int, j: int|
        0 <= i < rows.len() && 0 <= j < rows[i].keys@.len() && {
            let k = #[trigger] rows[i].keys@[j];
            &&& allowed.contains(rows[i].row_type)
            &&& (k.finger == lf || k.finger == rf)
            &&& k.base != '\0' && k.base != '\n'
            &&& (k.base == c || (with_shift && k.shift_variant == Some(c) && k.base != c))
        }
}

/// Insert `c` into a strictly sorted list, keeping it sorted; a duplicate
/// is dropped.
fn insert_sorted_unique(v: &mut Vec<char>, c: char)
    requires
        sorted_strict(old(v)@),
    ensures
        sorted_strict(final(v)@),
        final(v)@.contains(c),
        forall|i: int|
            0 <= i < final(v)@.len() ==> final(v)@[i] == c || old(v)@.contains(
                #[trigger] final(v)@[i],
            ),
        forall|x: char| old(v)@.contains(x) ==> final(v)@.contains(x),
{
    let n = v.len();
    let mut p: usize = 0;
    while p < n && (v[p] as u32) < (c as u32)
        invariant
            n == v@.len(),
            p <= n,
            sorted_strict(v@),
            v@ == old(v)@,
            forall|j: int| 0 <= j < p ==> (v@[j] as u32) < (c as u32),
        decreases n - p,
    {
        p = p + 1;
    }
    if p < n && v[p] == c {
        proof {
            assert(v@[p as int] == c);
        }
        return;
    }
    let ghost pre = v@;
    proof {
        if p < pre.len() {
            assert((pre[p as int] as u32) >= (c as u32));
            assert(pre[p as int] != c);
            // the code-point cast is injective, so the order is strict
            if (pre[p as int] as u32) == (c as u32) {
                vstd::utf8::char_u32_cast(pre[p as int], pre[p as int] as u32);
                vstd::utf8::char_u32_cast(c, c as u32);
                assert(false);
            }
            assert((pre[p as int] as u32) > (c as u32));
        }
    }
    v.insert(p, c);
    proof {
        assert(v@ == pre.insert(p as int, c));
        pre.insert_ensures(p as int, c);
        assert(v@[p as int] == c);
        assert forall|i: int, j: int| 0 <= i < j < v@.len() implies (v@[i] as u32) < (
        v@[j] as u32) by {
            if i < p && j > p {
                assert(v@[i] == pre[i] && v@[j] == pre[j - 1]);
            } else if i < p && j == p {
                assert(v@[i] == pre[i]);
            } else if i == p && j > p {
                assert(v@[j] == pre[j - 1]);
                if j - 1 > p {
                    assert((pre[p as int] as u32) < (pre[j - 1] as u32));
                }
            } else if i > p && j > p {
                assert(v@[i] == pre[i - 1] && v@[j] == pre[j - 1]);
            }
        }
        assert forall|i: int| 0 <= i < v@.len() implies v@[i] == c || pre.contains(
            #[trigger] v@[i],
        ) by {
            if i < p {
                assert(v@[i] == pre[i]);
            } else if i > p {
                assert(v@[i] == pre[i - 1]);
            }
        }
        assert forall|x: char| pre.contains(x) implies v@.contains(x) by {
            let i = choose|i: int| 0 <= i < pre.len() && pre[i] == x;
            if i < p {
                assert(v@[i] == x);
            } else {
                assert(v@[i + 1] == x);
            }
        }
    }
}

/// The fingers of the left and right hand that a finger pair names.
pub open spec fn spec_pair_fingers(pair: FingerPairType) -> (Finger, Finger) {
    match pair {
        FingerPairType::Pinky => (Finger::LeftPinky, Finger::RightPinky),
        FingerPairType::Ring => (Finger::LeftRing, Finger::RightRing),
        FingerPairType::Middle => (Finger::LeftMiddle, Finger::RightMiddle),
        FingerPairType::Index => (Finger::LeftIndex, Finger::RightIndex),
    }
}

/// The row types a difficulty level draws from.
pub open spec fn spec_allowed_rows(level: u8) -> Seq<RowType> {
    if level == 1 {
        seq![RowType::Home]
    } else if level == 2 {
        seq![RowType::Home, RowType::Top, RowType::Bottom]
    } else if level == 3 {
        seq![RowType::Number, RowType::Top, RowType::Home, RowType::Bottom]
    } else {
        Seq::empty()
    }
}

/// The key at `(i, j)` of `rows` feeds the drill: its row type is
/// allowed, one of the two fingers strikes it, and it is no placeholder.
pub open spec fn drill_key(
    rows: Seq<crate::keyboard::KeyboardRow>,
    lf: Finger,
    rf: Finger,
    allowed: Seq<RowType>,
    i: int,
    j: int,
) -> bool {
    &&& 0 <= i < rows.len()
    &&& 0 <= j < rows[i].keys@.len()
    &&& allowed.contains(rows[i].row_type)
    &&& (rows[i].keys@[j].finger == lf || rows[i].keys@[j].finger == rf)
    &&& rows[i].keys@[j].base != '\0'
    &&& rows[i].keys@[j].base != '\n'
}

/// The characters of every drill key before position `(ri, rj)` appear in
/// `r`: its base, and when shift drills are requested also its distinct
/// shifted variant.
pub open spec fn covers_upto(
    rows: Seq<crate::keyboard::KeyboardRow>,
    lf: Finger,
    rf: Finger,
    with_shift: bool,
    allowed: Seq<RowType>,
    r: Seq<char>,
    ri: int,
    rj: int,
) -> bool {
    forall|i: int, j: int|
        #![trigger rows[i].keys@[j]]
        drill_key(rows, lf, rf, allowed, i, j) && (i < ri || (i == ri && j < rj)) ==> {
            let k = rows[i].keys@[j];
            &&& r.contains(k.base)
            &&& (with_shift && k.shift_variant is Some && k.shift_variant->Some_0 != k.base
                ==> r.contains(k.shift_variant->Some_0))
        }
}

/// A lower level's allowed rows are a subset of a higher level's, so a
/// character listed for the lower level is listed for the higher one:
/// together with the extraction's soundness and completeness, the key set
/// grows with the level.
pub proof fn lemma_finger_key_listed_monotone(
    rows: Seq<crate::keyboard::KeyboardRow>,
    lf: Finger,
    rf: Finger,
    with_shift: bool,
    l1: u8,
    l2: u8,
    c: char,
)
    requires
        1 <= l1 <= l2 <= 3,
        finger_key_listed(rows, lf, rf, with_shift, spec_allowed_rows(l1), c),
    ensures
        finger_key_listed(rows, lf, rf, with_shift, spec_allowed_rows(l2), c),
{
    let a1 = spec_allowed_rows(l1);
    let a2 = spec_allowed_rows(l2);
    assert forall|rt: RowType| a1.contains(rt) implies a2.contains(rt) by {
        let k = choose|k: int| 0 <= k < a1.len() && a1[k] == rt;
        if rt == RowType::Home {
            assert(a2[if l2 == 1 { 0int } else if l2 == 2 { 0 } else { 2 }] == rt);
        } else if rt == RowType::Top {
            assert(a2[1] == rt);
        } else if rt == RowType::Bottom {
            assert(a2[if l2 == 2 { 2int } else { 3 }] == rt);
        } else {
            assert(a2[0] == rt);
        }
    }
    let (i, j) = choose|i: int, j: int|
        0 <= i < rows.len() && 0 <= j < rows[i].keys@.len() && {
            let k = #[trigger] rows[i].keys@[j];
            &&& a1.contains(rows[i].row_type)
            &&& (k.finger == lf || k.finger == rf)
            &&& k.base != '\0' && k.base != '\n'
            &&& (k.base == c || (with_shift && k.shift_variant == Some(c) && k.base != c))
        };
    assert(a2.contains(rows[i].row_type));
}

/// The keys assigned to a finger pair at a difficulty level, sorted and
/// without duplicates: every returned character is produced, directly or
/// through shift, by a key of the pair's fingers in an allowed row, and
/// every such key contributes its characters. A level outside 1 ..= 3
/// allows no rows and yields nothing.
/// Level 1 is the home row, level 2 adds the top and bottom rows, level 3
/// also the number row; `with_shift` adds the shifted variants.
/// Placeholder keys never appear.
pub fn get_finger_pair_keys(
    layout: &AzertyLayout,
    finger_pair: FingerPairType,
    level: u8,
    with_shift: bool,
) -> (r: Vec<char>)
    ensures
        sorted_strict(r@),
        forall|i: int, j: int| 0 <= i < j < r@.len() ==> r@[i] != r@[j],
        forall|i: int|
            0 <= i < r@.len() ==> finger_key_listed(
                layout.rows@,
                spec_pair_fingers(finger_pair).0,
                spec_pair_fingers(finger_pair).1,
                with_shift,
                spec_allowed_rows(level),
                #[trigger] r@[i],
            ),
        covers_upto(
            layout.rows@,
            spec_pair_fingers(finger_pair).0,
            spec_pair_fingers(finger_pair).1,
            with_shift,
            spec_allowed_rows(level),
            r@,
            layout.rows@.len() as int,
            0,
        ),
        !(1 <= level <= 3) ==> r@.len() == 0,
{
    let (left_finger, right_finger) = match finger_pair {
        FingerPairType::Pinky => (Finger::LeftPinky, Finger::RightPinky),
        FingerPairType::Ring => (Finger::LeftRing, Finger::RightRing),
        FingerPairType::Middle => (Finger::LeftMiddle, Finger::RightMiddle),
        FingerPairType::Index => (Finger::LeftIndex, Finger::RightIndex),
    };

    let mut allowed: Vec<RowType> = Vec::new();
    if level == 1 {
        allowed.push(RowType::Home);
    } else if level == 2 {
        allowed.push(RowType::Home);
        allowed.push(RowType::Top);
        allowed.push(RowType::Bottom);
    } else if level == 3 {
        allowed.push(RowType::Number);
        allowed.push(RowType::Top);
        allowed.push(RowType::Home);
        allowed.push(RowType::Bottom);
    }
    proof {
        assert(allowed@ =~= spec_allowed_rows(level));
    }

    let mut keys: Vec<char> = Vec::new();
    let nr = layout.rows.len();
    for i in 0..nr
        invariant
            nr == layout.rows@.len(),
            allowed@ == spec_allowed_rows(level),
            sorted_strict(keys@),
            forall|k: int|
                0 <= k < keys@.len() ==> finger_key_listed(
                    layout.rows@,
                    left_finger,
                    right_finger,
                    with_shift,
                    allowed@,
                    #[trigger] keys@[k],
                ),
            covers_upto(
                layout.rows@,
                left_finger,
                right_finger,
                with_shift,
                allowed@,
                keys@,
                i as int,
                0,
            ),
    {
        let mut row_allowed = false;
        let na = allowed.len();
        for a in 0..na
            invariant
                na == allowed@.len(),
                nr == layout.rows@.len(),
                i < nr,
                row_allowed ==> allowed@.contains(layout.rows@[i as int].row_type),
                !row_allowed ==> forall|b: int|
                    0 <= b < a ==> allowed@[b] != layout.rows@[i as int].row_type,
        {
            if allowed[a] == layout.rows[i].row_type {
                row_allowed = true;
                proof {
                    assert(allowed@[a as int] == layout.rows@[i as int].row_type);
                }
            }
        }
        proof {
            if !row_allowed {
                assert(!allowed@.contains(layout.rows@[i as int].row_type));
            }
        }
        if row_allowed {
            let nk = layout.rows[i].keys.len();
            for j in 0..nk
                invariant
                    nr == layout.rows@.len(),
                    i < nr,
                    allowed@ == spec_allowed_rows(level),
                    allowed@.contains(layout.rows@[i as int].row_type),
                    nk == layout.rows@[i as int].keys@.len(),
                    sorted_strict(keys@),
                    forall|k: int|
                        0 <= k < keys@.len() ==> finger_key_listed(
                            layout.rows@,
                            left_finger,
                            right_finger,
                            with_shift,
                            allowed@,
                            #[trigger] keys@[k],
                        ),
                    covers_upto(
                        layout.rows@,
                        left_finger,
                        right_finger,
                        with_shift,
                        allowed@,
                        keys@,
                        i as int,
                        j as int,
                    ),
            {
                let key = &layout.rows[i].keys[j];
                if key.base != '\0' && key.base != '\n' && (key.finger == left_finger
                    || key.finger == right_finger) {
                    let ghost pre = keys@;
                    insert_sorted_unique(&mut keys, key.base);
                    proof {
                        assert(finger_key_listed(
                            layout.rows@,
                            left_finger,
                            right_finger,
                            with_shift,
                            allowed@,
                            layout.rows@[i as int].keys@[j as int].base,
                        ));
                        assert forall|k: int| 0 <= k < keys@.len() implies finger_key_listed(
                            layout.rows@,
                            left_finger,
                            right_finger,
                            with_shift,
                            allowed@,
                            #[trigger] keys@[k],
                        ) by {
                            if keys@[k] != layout.rows@[i as int].keys@[j as int].base {
                                assert(pre.contains(keys@[k]));
                                let idx = choose|idx: int|
                                    0 <= idx < pre.len() && pre[idx] == keys@[k];
                            }
                        }
                    }
                    if with_shift {
                        if let Some(shifted) = key.shift_variant {
                            if shifted != key.base {
                                let ghost pre2 = keys@;
                                insert_sorted_unique(&mut keys, shifted);
                                proof {
                                    assert(finger_key_listed(
                                        layout.rows@,
                                        left_finger,
                                        right_finger,
                                        with_shift,
                                        allowed@,
                                        shifted,
                                    ));
                                    assert forall|k: int|
                                        0 <= k < keys@.len() implies finger_key_listed(
                                        layout.rows@,
                                        left_finger,
                                        right_finger,
                                        with_shift,
                                        allowed@,
                                        #[trigger] keys@[k],
                                    ) by {
                                        if keys@[k] != shifted {
                                            assert(pre2.contains(keys@[k]));
                                            let idx = choose|idx: int|
                                                0 <= idx < pre2.len() && pre2[idx] == keys@[k];
                                        }
                                    }
                                }
                            }
                        }
                    }
                }
            }
        }
    }

    proof {
        // a level outside the table allows no rows, so nothing was found
        if !(1 <= level <= 3) && keys@.len() > 0 {
            assert(finger_key_listed(
                layout.rows@,
                left_finger,
                right_finger,
                with_shift,
                allowed@,
                keys@[0],
            ));
            let (i, j) = choose|i: int, j: int|
                0 <= i < layout.rows@.len() && 0 <= j < layout.rows@[i].keys@.len() && {
                    let k = #[trigger] layout.rows@[i].keys@[j];
                    &&& allowed@.contains(layout.rows@[i].row_type)
                    &&& (k.finger == left_finger || k.finger == right_finger)
                    &&& k.base != '\0' && k.base != '\n'
                    &&& (k.base == keys@[0] || (with_shift && k.shift_variant == Some(keys@[0])
                        && k.base != keys@[0]))
                };
            assert(allowed@.contains(layout.rows@[i].row_type));
            assert(false);
        }
    }
    keys
}

/// Drill content over the finger-pair keys, at most `length` characters:
/// base drills cycle deterministic patterns; shift drills draw from a
/// case-weighted pool. No keys produce no content.
pub fn generate_finger_drills(keys: &Vec<char>, length: usize, with_shift: bool) -> (r: String)
    ensures
        r@.len() <= length,
        keys@.len() == 0 ==> r@.len() == 0,
        crate::generator::drill_chars_ok(keys@, r@),
{
    if keys.len() == 0 {
        let r = String::new();
        return r;
    }
    if with_shift {
        generate_shift_drills(keys, length)
    } else {
        generate_base_drills(keys, length)
    }
}

/// Deterministic three-phase drills: repetitions, pairs with reversals,
/// and permutation triplets, packed without cutting a token.
fn generate_base_drills(keys: &Vec<char>, length: usize) -> (r: String)
    requires
        keys@.len() > 0,
    ensures
        r@.len() <= length,
        crate::generator::drill_chars_ok(keys@, r@),
{
    let n = keys.len();
    let mut patterns: Vec<String> = Vec::new();

    // phase 1: single key repetitions
    for i in 0..n
        invariant
            n == keys@.len(),
            patterns@.len() == i,
            patterns_ok(keys@, patterns@),
    {
        let mut p = String::new();
        push_char(&mut p, keys[i]);
        push_char(&mut p, keys[i]);
        proof {
            assert(keys@.contains(keys@[i as int]));
        }
        patterns.push(p);
    }

    // phase 2: pairs and reversals
    for i in 0..n
        invariant
            n == keys@.len(),
            patterns@.len() > 0,
            patterns_ok(keys@, patterns@),
    {
        for j in (i + 1)..n
            invariant
                n == keys@.len(),
                i < n,
                patterns@.len() > 0,
                patterns_ok(keys@, patterns@),
        {
            proof {
                assert(keys@.contains(keys@[i as int]));
                assert(keys@.contains(keys@[j as int]));
            }
            let mut p = String::new();
            push_char(&mut p, keys[i]);
            push_char(&mut p, keys[j]);
            patterns.push(p);
            let mut q = String::new();
            push_char(&mut q, keys[j]);
            push_char(&mut q, keys[i]);
            patterns.push(q);
        }
    }

    // phase 3: permutation triplets
    if n >= 3 {
        for i in 0..n
            invariant
                n == keys@.len(),
                patterns@.len() > 0,
                patterns_ok(keys@, patterns@),
        {
            for j in 0..n
                invariant
                    n == keys@.len(),
                    i < n,
                    patterns@.len() > 0,
                    patterns_ok(keys@, patterns@),
            {
                for k in 0..n
                    invariant
                        n == keys@.len(),
                        i < n,
                        j < n,
                        patterns@.len() > 0,
                        patterns_ok(keys@, patterns@),
                {
                    if i != j && j != k && i != k {
                        proof {
                            assert(keys@.contains(keys@[i as int]));
                            assert(keys@.contains(keys@[j as int]));
                            assert(keys@.contains(keys@[k as int]));
                        }
                        let mut p = String::new();
                        push_char(&mut p, keys[i]);
                        push_char(&mut p, keys[j]);
                        push_char(&mut p, keys[k]);
                        patterns.push(p);
                    }
                }
            }
        }
    }

    pack_patterns_fixed(&patterns, keys, length)
}

/// Every pattern is a non-empty token over the drilled keys.
pub open spec fn patterns_ok(keys: Seq<char>, patterns: Seq<String>) -> bool {
    forall|k: int|
        0 <= k < patterns.len() ==> (#[trigger] patterns[k])@.len() >= 2 && crate::generator::drill_chars_ok(
            keys,
            patterns[k]@,
        )
}

/// Append patterns in order, space separated, never cutting a token:
/// stop before the first token that would not fit.
fn pack_patterns_fixed(patterns: &Vec<String>, keys: &Vec<char>, length: usize) -> (r: String)
    requires
        patterns@.len() > 0,
        patterns_ok(keys@, patterns@),
    ensures
        r@.len() <= length,
        crate::generator::drill_chars_ok(keys@, r@),
{
    let mut result = String::new();
    let mut built: usize = 0;
    let mut idx: usize = 0;
    let mut done = false;
    while !done && built < length
        invariant
            built == result@.len(),
            built <= length,
            patterns@.len() > 0,
            patterns_ok(keys@, patterns@),
            crate::generator::drill_chars_ok(keys@, result@),
        decreases length - built + (if done { 0int } else { 1int }),
    {
        let p = &patterns[idx % patterns.len()];
        let pl = p.as_str().unicode_len();
        let sep: usize = if built > 0 {
            1
        } else {
            0
        };
        if pl > length - built || sep > length - built - pl {
            done = true;
        } else {
            if sep == 1 {
                push_char(&mut result, ' ');
            }
            let ghost pre = result@;
            result.append(p.as_str());
            proof {
                assert forall|i: int| 0 <= i < result@.len() implies result@[i] == ' '
                    || keys@.contains(#[trigger] result@[i]) by {
                    if i < pre.len() {
                        assert(result@[i] == pre[i]);
                    } else {
                        assert(result@[i] == p@[i - pre.len()]);
                    }
                }
            }
            built = built + sep + pl;
            idx = if idx == usize::MAX {
                0
            } else {
                idx + 1
            };
        }
    }
    result
}

/// Randomized drills over a case-weighted pool: half the draws favour
/// lowercase, most of the rest uppercase, the remainder symbols.
fn generate_shift_drills(keys: &Vec<char>, length: usize) -> (r: String)
    requires
        keys@.len() > 0,
    ensures
        r@.len() <= length,
        crate::generator::drill_chars_ok(keys@, r@),
{
    // weighted pool: 50 copies of each lowercase key, 40 of each
    // uppercase, 10 of each symbol (ASCII classification)
    let mut pool: Vec<char> = Vec::new();
    let n = keys.len();
    for i in 0..n
        invariant
            n == keys@.len(),
            forall|k: int| 0 <= k < pool@.len() ==> keys@.contains(#[trigger] pool@[k]),
    {
        let c = keys[i];
        let code = c as u32;
        let weight: usize = if 97 <= code && code <= 122 {
            50
        } else if 65 <= code && code <= 90 {
            40
        } else {
            10
        };
        proof {
            assert(keys@.contains(keys@[i as int]));
        }
        for _w in 0..weight
            invariant
                keys@.contains(c),
                forall|k: int| 0 <= k < pool@.len() ==> keys@.contains(#[trigger] pool@[k]),
        {
            pool.push(c);
        }
    }

    if pool.len() == 0 {
        let r = String::new();
        return r;
    }

    // random patterns: repetitions, pairs, triplets
    let mut patterns: Vec<String> = Vec::new();
    let pn = pool.len();
    for _t in 0..20usize
        invariant
            pn == pool@.len(),
            pn > 0,
            forall|k: int| 0 <= k < pool@.len() ==> keys@.contains(#[trigger] pool@[k]),
            patterns@.len() == _t,
            patterns_ok(keys@, patterns@),
    {
        let c = pool[(draw_entropy() as usize) % pn];
        let mut p = String::new();
        push_char(&mut p, c);
        push_char(&mut p, c);
        patterns.push(p);
    }
    for _t in 0..30usize
        invariant
            pn == pool@.len(),
            pn > 0,
            forall|k: int| 0 <= k < pool@.len() ==> keys@.contains(#[trigger] pool@[k]),
            patterns@.len() > 0,
            patterns_ok(keys@, patterns@),
    {
        let c1 = pool[(draw_entropy() as usize) % pn];
        let c2 = pool[(draw_entropy() as usize) % pn];
        let mut p = String::new();
        push_char(&mut p, c1);
        push_char(&mut p, c2);
        patterns.push(p);
    }
    for _t in 0..50usize
        invariant
            pn == pool@.len(),
            pn > 0,
            forall|k: int| 0 <= k < pool@.len() ==> keys@.contains(#[trigger] pool@[k]),
            patterns@.len() > 0,
            patterns_ok(keys@, patterns@),
    {
        let c1 = pool[(draw_entropy() as usize) % pn];
        let c2 = pool[(draw_entropy() as usize) % pn];
        let c3 = pool[(draw_entropy() as usize) % pn];
        let mut p = String::new();
        push_char(&mut p, c1);
        push_char(&mut p, c2);
        push_char(&mut p, c3);
        patterns.push(p);
    }

    pack_patterns_fixed(&patterns, keys, length)
}

} // verus!
