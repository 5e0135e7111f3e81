//! The AZERTY layout tables and lookups.

use typer_core::keyboard::should_highlight_shift;
use typer_core::{AzertyLayout, Finger, Hand, KeyboardConfig, RowType};

#[test]
fn test_azerty_home_row() {
    let layout = AzertyLayout::new();
    assert_eq!(layout.home_row.len(), 10);
    assert_eq!(layout.home_row[0], 'q');
    assert_eq!(layout.home_row[9], 'm');
}

#[test]
fn test_is_home_row_key() {
    let layout = AzertyLayout::new();
    assert!(layout.is_home_row_key('f'));
    assert!(layout.is_home_row_key('j'));
    assert!(layout.is_home_row_key('q'));
    assert!(!layout.is_home_row_key('a'));
    assert!(!layout.is_home_row_key('z'));
}

#[test]
fn test_all_rows_populated() {
    let layout = AzertyLayout::new();
    assert_eq!(layout.rows.len(), 5);
    assert_eq!(layout.rows[0].row_type, RowType::Number);
    assert_eq!(layout.rows[1].row_type, RowType::Top);
    assert_eq!(layout.rows[2].row_type, RowType::Home);
    assert_eq!(layout.rows[3].row_type, RowType::Bottom);
    assert_eq!(layout.rows[4].row_type, RowType::Modifier);
}

#[test]
fn test_number_row_has_13_keys() {
    let layout = AzertyLayout::new();
    assert_eq!(layout.rows[0].keys.len(), 13);
    // first key should be ²
    assert_eq!(layout.rows[0].keys[0].base, '\u{b2}');
    assert_eq!(layout.rows[0].keys[0].shift_variant, Some('\u{b3}'));
    // 12th key (index 11) - French AZERTY: ) is base, ° is shift
    assert_eq!(layout.rows[0].keys[11].base, ')');
    assert_eq!(layout.rows[0].keys[11].shift_variant, Some('\u{b0}'));
    // last key should be =
    assert_eq!(layout.rows[0].keys[12].base, '=');
    assert_eq!(layout.rows[0].keys[12].shift_variant, Some('+'));
}

#[test]
fn test_shift_mapping_letters() {
    let layout = AzertyLayout::new();
    assert_eq!(layout.shift_of('a'), Some('A'));
    assert_eq!(layout.shift_of('z'), Some('Z'));
    assert_eq!(layout.shift_of('q'), Some('Q'));
    assert_eq!(layout.shift_of('m'), Some('M'));
}

#[test]
fn test_shift_mapping_numbers() {
    let layout = AzertyLayout::new();
    assert_eq!(layout.shift_of('\u{b2}'), Some('\u{b3}'));
    assert_eq!(layout.shift_of('1'), Some('&'));
    assert_eq!(layout.shift_of('5'), Some('('));
    assert_eq!(layout.shift_of('0'), Some('\u{e0}'));
}

#[test]
fn test_shift_mapping_special_chars() {
    let layout = AzertyLayout::new();
    assert_eq!(layout.shift_of('<'), Some('>'));
    assert_eq!(layout.shift_of('^'), Some('\u{a8}'));
    assert_eq!(layout.shift_of('$'), Some('\u{a3}'));
    assert_eq!(layout.shift_of('\u{f9}'), Some('%'));
    assert_eq!(layout.shift_of('*'), Some('\u{b5}'));
}

#[test]
fn test_get_base_key() {
    let layout = AzertyLayout::new();
    // base characters (French AZERTY: symbols are base, numbers are shift)
    assert_eq!(layout.get_base_key('\u{b2}'), Some('\u{b2}'));
    assert_eq!(layout.get_base_key('a'), Some('a'));
    assert_eq!(layout.get_base_key('q'), Some('q'));
    assert_eq!(layout.get_base_key('&'), Some('&')); // base character
    assert_eq!(layout.get_base_key('\u{e9}'), Some('\u{e9}')); // base character
    // shift variants (numbers require shift on French AZERTY)
    assert_eq!(layout.get_base_key('\u{b3}'), Some('\u{b2}'));
    assert_eq!(layout.get_base_key('A'), Some('a'));
    assert_eq!(layout.get_base_key('Q'), Some('q'));
    assert_eq!(layout.get_base_key('1'), Some('&')); // 1 is shift of &
    assert_eq!(layout.get_base_key('2'), Some('\u{e9}')); // 2 is shift of é
    // special characters
    assert_eq!(layout.get_base_key('<'), Some('<'));
    assert_eq!(layout.get_base_key('>'), Some('<'));
    assert_eq!(layout.get_base_key('%'), Some('\u{f9}'));
    assert_eq!(layout.get_base_key('\u{b5}'), Some('*'));
}

#[test]
fn test_requires_shift() {
    let layout = AzertyLayout::new();
    // uppercase letters require shift
    assert!(layout.requires_shift('A'));
    assert!(layout.requires_shift('Z'));
    assert!(layout.requires_shift('Q'));
    // number symbols require shift
    assert!(layout.requires_shift('\u{b3}'));
    assert!(layout.requires_shift('&'));
    assert!(layout.requires_shift('('));
    assert!(layout.requires_shift('\u{e9}'));
    // special character shift variants
    assert!(layout.requires_shift('>'));
    assert!(layout.requires_shift('%'));
    assert!(layout.requires_shift('\u{b5}'));
    // base characters don't require shift
    assert!(!layout.requires_shift('\u{b2}'));
    assert!(!layout.requires_shift('a'));
    assert!(!layout.requires_shift('1'));
    assert!(!layout.requires_shift('q'));
    assert!(!layout.requires_shift('<'));
    assert!(!layout.requires_shift('\u{f9}'));
    assert!(!layout.requires_shift('*'));
    assert!(!layout.requires_shift('\u{b0}'));
}

#[test]
fn test_finger_hand_detection() {
    // left hand fingers
    assert_eq!(Finger::LeftPinky.hand(), Hand::Left);
    assert_eq!(Finger::LeftRing.hand(), Hand::Left);
    assert_eq!(Finger::LeftMiddle.hand(), Hand::Left);
    assert_eq!(Finger::LeftIndex.hand(), Hand::Left);
    // right hand fingers
    assert_eq!(Finger::RightPinky.hand(), Hand::Right);
    assert_eq!(Finger::RightRing.hand(), Hand::Right);
    assert_eq!(Finger::RightMiddle.hand(), Hand::Right);
    assert_eq!(Finger::RightIndex.hand(), Hand::Right);
    // thumb (either hand)
    assert_eq!(Finger::Thumb.hand(), Hand::Either);
}

#[test]
fn test_find_key() {
    let layout = AzertyLayout::new();

    // left hand keys
    let key_q = layout.find_key('q');
    assert!(key_q.is_some());
    assert_eq!(key_q.unwrap().base, 'q');
    assert_eq!(key_q.unwrap().finger, Finger::LeftPinky);

    let key_s = layout.find_key('s');
    assert!(key_s.is_some());
    assert_eq!(key_s.unwrap().finger, Finger::LeftRing);

    let key_d = layout.find_key('d');
    assert!(key_d.is_some());
    assert_eq!(key_d.unwrap().finger, Finger::LeftMiddle);

    let key_f = layout.find_key('f');
    assert!(key_f.is_some());
    assert_eq!(key_f.unwrap().finger, Finger::LeftIndex);

    // right hand keys
    let key_j = layout.find_key('j');
    assert!(key_j.is_some());
    assert_eq!(key_j.unwrap().finger, Finger::RightIndex);

    let key_k = layout.find_key('k');
    assert!(key_k.is_some());
    assert_eq!(key_k.unwrap().finger, Finger::RightMiddle);

    let key_l = layout.find_key('l');
    assert!(key_l.is_some());
    assert_eq!(key_l.unwrap().finger, Finger::RightRing);

    let key_m = layout.find_key('m');
    assert!(key_m.is_some());
    assert_eq!(key_m.unwrap().finger, Finger::RightPinky);

    // the spacebar (thumb)
    let key_space = layout.find_key(' ');
    assert!(key_space.is_some());
    assert_eq!(key_space.unwrap().finger, Finger::Thumb);

    // a key that is not on the layout
    let key_none = layout.find_key('\u{20ac}');
    assert!(key_none.is_none());
}

#[test]
fn test_should_highlight_shift() {
    let layout = AzertyLayout::new();
    // no shift needed: never highlighted
    assert!(!should_highlight_shift(Some('a'), false, &layout, true));
    // 'A' sits under the left pinky, so the right shift serves it
    assert!(should_highlight_shift(Some('A'), true, &layout, false));
    assert!(!should_highlight_shift(Some('A'), true, &layout, true));
    // 'M' sits under the right pinky, so the left shift serves it
    assert!(should_highlight_shift(Some('M'), true, &layout, true));
    // no upcoming character: nothing to highlight
    assert!(!should_highlight_shift(None, true, &layout, true));
}

#[test]
fn test_keyboard_config_default() {
    let config = KeyboardConfig::default();
    assert!(config.show_shift_indicators);
    assert!(config.show_heatmap);
    assert!(config.show_finger_colors);
    assert!(!config.compact_mode);
}
