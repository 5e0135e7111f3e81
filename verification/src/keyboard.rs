//! The AZERTY keyboard layout: finger assignments, rows, and shift
//! mappings, with lookup functions over them.

use vstd::prelude::*;

verus! {

/// Finger assignment for touch typing.
#[derive(Debug, Clone, Copy, PartialEq, Eq, Structural)]
pub enum Finger {
    LeftPinky,
    LeftRing,
    LeftMiddle,
    LeftIndex,
    RightIndex,
    RightMiddle,
    RightRing,
    RightPinky,
    Thumb,
}

/// Hand classification, used for smart shift-key selection.
#[derive(Debug, Clone, Copy, PartialEq, Eq, Structural)]
pub enum Hand {
    Left,
    Right,
    Either,
}

pub open spec fn spec_hand(f: Finger) -> Hand {
    match f {
        Finger::LeftPinky | Finger::LeftRing | Finger::LeftMiddle | Finger::LeftIndex => Hand::Left,
        Finger::RightPinky | Finger::RightRing | Finger::RightMiddle | Finger::RightIndex
            => Hand::Right,
        Finger::Thumb => Hand::Either,
    }
}

impl Finger {
    /// Which hand uses this finger; the thumb may use either.
    pub fn hand(&self) -> (h: Hand)
        ensures
            h == spec_hand(*self),
    {
        match self {
            Finger::LeftPinky | Finger::LeftRing | Finger::LeftMiddle | Finger::LeftIndex
                => Hand::Left,
            Finger::RightPinky | Finger::RightRing | Finger::RightMiddle | Finger::RightIndex
                => Hand::Right,
            Finger::Thumb => Hand::Either,
        }
    }
}

/// Row classification of the layout.
#[derive(Debug, Clone, Copy, PartialEq, Eq, Structural)]
pub enum RowType {
    Number,
    Top,
    Home,
    Bottom,
    Space,
    Modifier,
}

/// A single key: its base character, its shifted variant if any, and the
/// finger that should strike it.
#[derive(Debug, Clone, Copy, PartialEq, Eq, Structural)]
pub struct Key {
    pub base: char,
    pub shift_variant: Option<char>,
    pub display_width: u8,
    pub finger: Finger,
}

impl Key {
    pub fn new(base: char, shift_variant: Option<char>, finger: Finger) -> (r: Self)
        ensures
            r == (Key { base, shift_variant, display_width: 1u8, finger }),
    {
        Self { base, shift_variant, display_width: 1, finger }
    }
}

/// One row of keys.
#[derive(Debug, Clone, PartialEq)]
pub struct KeyboardRow {
    pub keys: Vec<Key>,
    pub row_type: RowType,
}

/// The AZERTY layout: the bare home row, the five key rows, and the
/// shift mapping from base characters to their shifted variants.
#[derive(Debug, Clone, PartialEq)]
pub struct AzertyLayout {
    pub home_row: Vec<char>,
    pub rows: Vec<KeyboardRow>,
    /// Association list from base character to shifted character, with
    /// distinct base characters.
    pub shift_mappings: Vec<(char, char)>,
}

/// Some key of `rows` carries `c` as base or as shifted variant, and its
/// base is `b`.
pub open spec fn base_key_listed(rows: Seq<KeyboardRow>, c: char, b: char) -> bool {
    exists|i: int, j: int|
        0 <= i < rows.len() && 0 <= j < rows[i].keys@.len() && (#[trigger] rows[i].keys@[j]).base
            == b && (rows[i].keys@[j].base == c || rows[i].keys@[j].shift_variant == Some(c))
}

/// Some key of `rows` has base `b`.
pub open spec fn key_listed(rows: Seq<KeyboardRow>, b: char) -> bool {
    exists|i: int, j: int|
        0 <= i < rows.len() && 0 <= j < rows[i].keys@.len() && (#[trigger] rows[i].keys@[j]).base
            == b
}

/// Some shift mapping sends its base to `c`.
pub open spec fn shift_target(m: Seq<(char, char)>, c: char) -> bool {
    exists|i: int| 0 <= i < m.len() && (#[trigger] m[i]).1 == c
}

/// The shift mapping table as a spec value.
pub open spec fn spec_shift_mappings() -> Seq<(char, char)> {
    seq![
        ('a', 'A'),
        ('b', 'B'),
        ('c', 'C'),
        ('d', 'D'),
        ('e', 'E'),
        ('f', 'F'),
        ('g', 'G'),
        ('h', 'H'),
        ('i', 'I'),
        ('j', 'J'),
        ('k', 'K'),
        ('l', 'L'),
        ('m', 'M'),
        ('n', 'N'),
        ('o', 'O'),
        ('p', 'P'),
        ('q', 'Q'),
        ('r', 'R'),
        ('s', 'S'),
        ('t', 'T'),
        ('u', 'U'),
        ('v', 'V'),
        ('w', 'W'),
        ('x', 'X'),
        ('y', 'Y'),
        ('z', 'Z'),
        ('\u{b2}', '\u{b3}'),
        ('1', '&'),
        ('2', '\u{e9}'),
        ('3', '"'),
        ('4', '\''),
        ('5', '('),
        ('6', '-'),
        ('7', '\u{e8}'),
        ('8', '_'),
        ('9', '\u{e7}'),
        ('0', '\u{e0}'),
        ('\u{b0}', ')'),
        ('=', '+'),
        (',', '?'),
        (';', '.'),
        (':', '/'),
        ('!', '\u{a7}'),
        ('<', '>'),
        ('^', '\u{a8}'),
        ('$', '\u{a3}'),
        ('\u{f9}', '%'),
        ('*', '\u{b5}'),
    ]
}

impl AzertyLayout {
    /// Build the full layout.
    pub fn new() -> (r: Self)
        ensures
            r.home_row@ =~= seq!['q', 's', 'd', 'f', 'g', 'h', 'j', 'k', 'l', 'm'],
            r.shift_mappings@ == spec_shift_mappings(),
            r.rows@.len() == 5,
            r.rows@[0].row_type == RowType::Number,
            r.rows@[1].row_type == RowType::Top,
            r.rows@[2].row_type == RowType::Home,
            r.rows@[3].row_type == RowType::Bottom,
            r.rows@[4].row_type == RowType::Modifier,
            r.rows@[0].keys@.len() == 13,
            r.rows@[1].keys@.len() == 13,
            r.rows@[2].keys@.len() == 13,
            r.rows@[3].keys@.len() == 12,
            r.rows@[4].keys@.len() == 7,
    {
        let shift_mappings = Self::build_shift_mappings();

        let mut home_row: Vec<char> = Vec::new();
        home_row.push('q');
        home_row.push('s');
        home_row.push('d');
        home_row.push('f');
        home_row.push('g');
        home_row.push('h');
        home_row.push('j');
        home_row.push('k');
        home_row.push('l');
        home_row.push('m');

        let mut rows: Vec<KeyboardRow> = Vec::new();
        rows.push(Self::number_row());
        rows.push(Self::top_row());
        rows.push(Self::home_row_keys());
        rows.push(Self::bottom_row());
        rows.push(Self::modifier_row());

        Self { home_row, rows, shift_mappings }
    }

    pub fn get_home_row(&self) -> (r: &Vec<char>)
        ensures
            r@ == self.home_row@,
    {
        &self.home_row
    }

    /// Whether `c` sits on the bare home row.
    pub fn is_home_row_key(&self, c: char) -> (r: bool)
        ensures
            r == self.home_row@.contains(c),
    {
        let n = self.home_row.len();
        for i in 0..n
            invariant
                n == self.home_row@.len(),
                forall|j: int| 0 <= j < i ==> self.home_row@[j] != c,
        {
            if self.home_row[i] == c {
                proof {
                    assert(self.home_row@[i as int] == c);
                }
                return true;
            }
        }
        false
    }

    /// The number row: on French AZERTY the symbols are the base
    /// characters and the digits their shifted variants.
    fn number_row() -> (r: KeyboardRow)
        ensures
            r.row_type == RowType::Number,
            r.keys@.len() == 13,
    {
        let mut keys: Vec<Key> = Vec::new();
        keys.push(Key::new('\u{b2}', Some('\u{b3}'), Finger::LeftPinky));
        keys.push(Key::new('&', Some('1'), Finger::LeftPinky));
        keys.push(Key::new('\u{e9}', Some('2'), Finger::LeftPinky));
        keys.push(Key::new('"', Some('3'), Finger::LeftRing));
        keys.push(Key::new('\'', Some('4'), Finger::LeftMiddle));
        keys.push(Key::new('(', Some('5'), Finger::LeftIndex));
        keys.push(Key::new('-', Some('6'), Finger::LeftIndex));
        keys.push(Key::new('\u{e8}', Some('7'), Finger::RightIndex));
        keys.push(Key::new('_', Some('8'), Finger::RightMiddle));
        keys.push(Key::new('\u{e7}', Some('9'), Finger::RightRing));
        keys.push(Key::new('\u{e0}', Some('0'), Finger::RightPinky));
        keys.push(Key::new(')', Some('\u{b0}'), Finger::RightPinky));
        keys.push(Key::new('=', Some('+'), Finger::RightPinky));
        KeyboardRow { keys, row_type: RowType::Number }
    }

    /// The top row, ending in the Enter key.
    fn top_row() -> (r: KeyboardRow)
        ensures
            r.row_type == RowType::Top,
            r.keys@.len() == 13,
    {
        let mut keys: Vec<Key> = Vec::new();
        keys.push(Key::new('a', Some('A'), Finger::LeftPinky));
        keys.push(Key::new('z', Some('Z'), Finger::LeftRing));
        keys.push(Key::new('e', Some('E'), Finger::LeftMiddle));
        keys.push(Key::new('r', Some('R'), Finger::LeftIndex));
        keys.push(Key::new('t', Some('T'), Finger::LeftIndex));
        keys.push(Key::new('y', Some('Y'), Finger::RightIndex));
        keys.push(Key::new('u', Some('U'), Finger::RightIndex));
        keys.push(Key::new('i', Some('I'), Finger::RightMiddle));
        keys.push(Key::new('o', Some('O'), Finger::RightRing));
        keys.push(Key::new('p', Some('P'), Finger::RightPinky));
        keys.push(Key::new('^', Some('\u{a8}'), Finger::RightPinky));
        keys.push(Key::new('$', Some('\u{a3}'), Finger::RightPinky));
        keys.push(Key::new('\n', None, Finger::RightPinky));
        KeyboardRow { keys, row_type: RowType::Top }
    }

    /// The home row, ending in the Enter key continuation.
    fn home_row_keys() -> (r: KeyboardRow)
        ensures
            r.row_type == RowType::Home,
            r.keys@.len() == 13,
    {
        let mut keys: Vec<Key> = Vec::new();
        keys.push(Key::new('q', Some('Q'), Finger::LeftPinky));
        keys.push(Key::new('s', Some('S'), Finger::LeftRing));
        keys.push(Key::new('d', Some('D'), Finger::LeftMiddle));
        keys.push(Key::new('f', Some('F'), Finger::LeftIndex));
        keys.push(Key::new('g', Some('G'), Finger::LeftIndex));
        keys.push(Key::new('h', Some('H'), Finger::RightIndex));
        keys.push(Key::new('j', Some('J'), Finger::RightIndex));
        keys.push(Key::new('k', Some('K'), Finger::RightMiddle));
        keys.push(Key::new('l', Some('L'), Finger::RightRing));
        keys.push(Key::new('m', Some('M'), Finger::RightPinky));
        keys.push(Key::new('\u{f9}', Some('%'), Finger::RightPinky));
        keys.push(Key::new('*', Some('\u{b5}'), Finger::RightPinky));
        keys.push(Key::new('\n', None, Finger::RightPinky));
        KeyboardRow { keys, row_type: RowType::Home }
    }

    /// The bottom row, ending in the right-shift placeholder.
    fn bottom_row() -> (r: KeyboardRow)
        ensures
            r.row_type == RowType::Bottom,
            r.keys@.len() == 12,
    {
        let mut keys: Vec<Key> = Vec::new();
        keys.push(Key::new('<', Some('>'), Finger::LeftPinky));
        keys.push(Key::new('w', Some('W'), Finger::LeftPinky));
        keys.push(Key::new('x', Some('X'), Finger::LeftRing));
        keys.push(Key::new('c', Some('C'), Finger::LeftMiddle));
        keys.push(Key::new('v', Some('V'), Finger::LeftIndex));
        keys.push(Key::new('b', Some('B'), Finger::LeftIndex));
        keys.push(Key::new('n', Some('N'), Finger::RightIndex));
        keys.push(Key::new(',', Some('?'), Finger::RightIndex));
        keys.push(Key::new(';', Some('.'), Finger::RightMiddle));
        keys.push(Key::new(':', Some('/'), Finger::RightRing));
        keys.push(Key::new('!', Some('\u{a7}'), Finger::RightPinky));
        keys.push(Key::new('\0', None, Finger::RightPinky));
        KeyboardRow { keys, row_type: RowType::Bottom }
    }

    /// The space bar row.
    fn space_row() -> (r: KeyboardRow)
        ensures
            r.row_type == RowType::Space,
            r.keys@.len() == 1,
    {
        let mut keys: Vec<Key> = Vec::new();
        keys.push(Key::new(' ', None, Finger::Thumb));
        KeyboardRow { keys, row_type: RowType::Space }
    }

    /// The modifier row: placeholders for Ctrl, Cmd, Option, Space, Alt
    /// and the function keys.
    fn modifier_row() -> (r: KeyboardRow)
        ensures
            r.row_type == RowType::Modifier,
            r.keys@.len() == 7,
    {
        let mut keys: Vec<Key> = Vec::new();
        keys.push(Key::new('\0', None, Finger::LeftPinky));
        keys.push(Key::new('\u{2318}', None, Finger::RightPinky));
        keys.push(Key::new('\u{2325}', None, Finger::RightPinky));
        keys.push(Key::new(' ', None, Finger::Thumb));
        keys.push(Key::new('\0', None, Finger::RightPinky));
        keys.push(Key::new('\0', None, Finger::RightPinky));
        keys.push(Key::new('\0', None, Finger::RightPinky));
        KeyboardRow { keys, row_type: RowType::Modifier }
    }

    /// The shift mapping table: every letter to its uppercase form, the
    /// number-row symbols to their digits, and the remaining punctuation.
    fn build_shift_mappings() -> (r: Vec<(char, char)>)
        ensures
            r@ == spec_shift_mappings(),
    {
        let mut m: Vec<(char, char)> = Vec::new();
        m.push(('a', 'A'));
        m.push(('b', 'B'));
        m.push(('c', 'C'));
        m.push(('d', 'D'));
        m.push(('e', 'E'));
        m.push(('f', 'F'));
        m.push(('g', 'G'));
        m.push(('h', 'H'));
        m.push(('i', 'I'));
        m.push(('j', 'J'));
        m.push(('k', 'K'));
        m.push(('l', 'L'));
        m.push(('m', 'M'));
        m.push(('n', 'N'));
        m.push(('o', 'O'));
        m.push(('p', 'P'));
        m.push(('q', 'Q'));
        m.push(('r', 'R'));
        m.push(('s', 'S'));
        m.push(('t', 'T'));
        m.push(('u', 'U'));
        m.push(('v', 'V'));
        m.push(('w', 'W'));
        m.push(('x', 'X'));
        m.push(('y', 'Y'));
        m.push(('z', 'Z'));
        m.push(('\u{b2}', '\u{b3}'));
        m.push(('1', '&'));
        m.push(('2', '\u{e9}'));
        m.push(('3', '"'));
        m.push(('4', '\''));
        m.push(('5', '('));
        m.push(('6', '-'));
        m.push(('7', '\u{e8}'));
        m.push(('8', '_'));
        m.push(('9', '\u{e7}'));
        m.push(('0', '\u{e0}'));
        m.push(('\u{b0}', ')'));
        m.push(('=', '+'));
        m.push((',', '?'));
        m.push((';', '.'));
        m.push((':', '/'));
        m.push(('!', '\u{a7}'));
        m.push(('<', '>'));
        m.push(('^', '\u{a8}'));
        m.push(('$', '\u{a3}'));
        m.push(('\u{f9}', '%'));
        m.push(('*', '\u{b5}'));
        proof {
            assert(m@ =~= spec_shift_mappings());
        }
        m
    }

    /// The shifted variant recorded for base character `c`, if any.
    pub fn shift_of(&self, c: char) -> (r: Option<char>)
        ensures
            match r {
                Some(s) => exists|i: int|
                    0 <= i < self.shift_mappings@.len() && #[trigger] self.shift_mappings@[i] == (
                        c,
                        s,
                    ),
                None => forall|i: int|
                    0 <= i < self.shift_mappings@.len() ==> (#[trigger] self.shift_mappings@[i]).0
                        != c,
            },
    {
        let n = self.shift_mappings.len();
        for i in 0..n
            invariant
                n == self.shift_mappings@.len(),
                forall|j: int| 0 <= j < i ==> (#[trigger] self.shift_mappings@[j]).0 != c,
        {
            if self.shift_mappings[i].0 == c {
                let s = self.shift_mappings[i].1;
                proof {
                    assert(self.shift_mappings@[i as int] == (c, s));
                }
                return Some(s);
            }
        }
        None
    }

    /// The base key that produces `c`, directly or through shift.
    pub fn get_base_key(&self, c: char) -> (r: Option<char>)
        ensures
            match r {
                Some(b) => base_key_listed(self.rows@, c, b),
                None => !base_key_listed(self.rows@, c, c) && forall|b: char|
                    !base_key_listed(self.rows@, c, b),
            },
    {
        let nr = self.rows.len();
        for i in 0..nr
            invariant
                nr == self.rows@.len(),
                forall|i2: int, j2: int|
                    0 <= i2 < i && 0 <= j2 < self.rows@[i2].keys@.len() ==> {
                        let k = #[trigger] self.rows@[i2].keys@[j2];
                        k.base != c && k.shift_variant != Some(c)
                    },
        {
            let nk = self.rows[i].keys.len();
            for j in 0..nk
                invariant
                    nr == self.rows@.len(),
                    i < nr,
                    nk == self.rows@[i as int].keys@.len(),
                    forall|i2: int, j2: int|
                        0 <= i2 < i && 0 <= j2 < self.rows@[i2].keys@.len() ==> {
                            let k = #[trigger] self.rows@[i2].keys@[j2];
                            k.base != c && k.shift_variant != Some(c)
                        },
                    forall|j2: int|
                        0 <= j2 < j ==> {
                            let k = #[trigger] self.rows@[i as int].keys@[j2];
                            k.base != c && k.shift_variant != Some(c)
                        },
            {
                let key = &self.rows[i].keys[j];
                if key.base == c {
                    proof {
                        assert(self.rows@[i as int].keys@[j as int].base == c);
                    }
                    return Some(key.base);
                }
                if let Some(sv) = key.shift_variant {
                    if sv == c {
                        proof {
                            assert(self.rows@[i as int].keys@[j as int].shift_variant == Some(c));
                        }
                        return Some(key.base);
                    }
                }
            }
        }
        None
    }

    /// Whether producing `c` requires holding shift: `c` is a shifted
    /// variant in the mapping table.
    pub fn requires_shift(&self, c: char) -> (r: bool)
        ensures
            r == shift_target(self.shift_mappings@, c),
    {
        let n = self.shift_mappings.len();
        for i in 0..n
            invariant
                n == self.shift_mappings@.len(),
                forall|j: int| 0 <= j < i ==> (#[trigger] self.shift_mappings@[j]).1 != c,
        {
            if self.shift_mappings[i].1 == c {
                proof {
                    assert((self.shift_mappings@[i as int]).1 == c);
                }
                return true;
            }
        }
        false
    }

    /// The key whose base character is `base_char`, if any.
    pub fn find_key(&self, base_char: char) -> (r: Option<Key>)
        ensures
            match r {
                Some(k) => k.base == base_char && exists|i: int, j: int|
                    0 <= i < self.rows@.len() && 0 <= j < self.rows@[i].keys@.len()
                        && #[trigger] self.rows@[i].keys@[j] == k,
                None => !key_listed(self.rows@, base_char),
            },
    {
        let nr = self.rows.len();
        for i in 0..nr
            invariant
                nr == self.rows@.len(),
                forall|i2: int, j2: int|
                    0 <= i2 < i && 0 <= j2 < self.rows@[i2].keys@.len() ==> (
                    #[trigger] self.rows@[i2].keys@[j2]).base != base_char,
        {
            let nk = self.rows[i].keys.len();
            for j in 0..nk
                invariant
                    nr == self.rows@.len(),
                    i < nr,
                    nk == self.rows@[i as int].keys@.len(),
                    forall|i2: int, j2: int|
                        0 <= i2 < i && 0 <= j2 < self.rows@[i2].keys@.len() ==> (
                        #[trigger] self.rows@[i2].keys@[j2]).base != base_char,
                    forall|j2: int|
                        0 <= j2 < j ==> (#[trigger] self.rows@[i as int].keys@[j2]).base
                            != base_char,
            {
                let key = &self.rows[i].keys[j];
                if key.base == base_char {
                    proof {
                        assert(self.rows@[i as int].keys@[j as int] == *key);
                    }
                    return Some(*key);
                }
            }
        }
        None
    }
}

impl Default for AzertyLayout {
    /// The full layout, as built by `new`.
    fn default() -> (r: Self)
        ensures
            r.rows@.len() == 5,
    {
        Self::new()
    }
}

/// Which shift key serves a keystroke by the given hand: the opposite
/// shift, so the hands share the work; the spacebar accepts either.
pub fn shift_for_hand(hand: Hand, is_left_shift: bool) -> (r: bool)
    ensures
        r == match hand {
            Hand::Right => is_left_shift,
            Hand::Left => !is_left_shift,
            Hand::Either => true,
        },
{
    match hand {
        Hand::Right => is_left_shift,
        Hand::Left => !is_left_shift,
        Hand::Either => true,
    }
}

/// Whether a shift key should light up for the upcoming character: only
/// when shift is required at all, and then on the side opposite the hand
/// that strikes the character's key.
pub fn should_highlight_shift(
    next_char: Option<char>,
    requires_shift: bool,
    layout: &AzertyLayout,
    is_left_shift: bool,
) -> (r: bool)
    ensures
        !requires_shift ==> !r,
        next_char is None ==> !r,
{
    if !requires_shift {
        return false;
    }
    if let Some(c) = next_char {
        if let Some(base_key) = layout.get_base_key(c) {
            if let Some(key) = layout.find_key(base_key) {
                return shift_for_hand(key.finger.hand(), is_left_shift);
            }
        }
    }
    false
}

/// Display options for an on-screen keyboard.
#[derive(Debug, Clone, Copy, PartialEq, Eq, Structural)]
pub struct KeyboardConfig {
    pub show_shift_indicators: bool,
    pub show_heatmap: bool,
    pub show_finger_colors: bool,
    pub compact_mode: bool,
}

impl Default for KeyboardConfig {
    /// Everything on, full-size keyboard.
    fn default() -> (r: Self)
        ensures
            r.show_shift_indicators,
            r.show_heatmap,
            r.show_finger_colors,
            !r.compact_mode,
    {
        KeyboardConfig {
            show_shift_indicators: true,
            show_heatmap: true,
            show_finger_colors: true,
            compact_mode: false,
        }
    }
}

} // verus!
