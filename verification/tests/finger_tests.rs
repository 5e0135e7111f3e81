//! Finger-pair key extraction and drill generation.

use typer_core::finger_generator::{generate_finger_drills, get_finger_pair_keys};
use typer_core::{AzertyLayout, FingerPairType};

#[test]
fn test_middle_home_row_no_shift() {
    let layout = AzertyLayout::new();
    let keys = get_finger_pair_keys(&layout, FingerPairType::Middle, 1, false);

    // expected: d (left home), k (right home)
    assert!(keys.contains(&'d'));
    assert!(keys.contains(&'k'));
    assert_eq!(keys.len(), 2);
}

#[test]
fn test_middle_extended_no_shift() {
    let layout = AzertyLayout::new();
    let keys = get_finger_pair_keys(&layout, FingerPairType::Middle, 2, false);

    // home (d, k), top (e, i), bottom (c, ;)
    assert!(keys.contains(&'d'));
    assert!(keys.contains(&'k'));
    assert!(keys.contains(&'e'));
    assert!(keys.contains(&'i'));
    assert!(keys.contains(&'c'));
    assert!(keys.contains(&';'));
    assert_eq!(keys.len(), 6);
}

#[test]
fn test_middle_all_keys_no_shift() {
    let layout = AzertyLayout::new();
    let keys = get_finger_pair_keys(&layout, FingerPairType::Middle, 3, false);

    // number row bases: ' (shift 4) and _ (shift 8)
    assert!(keys.contains(&'\''));
    assert!(keys.contains(&'_'));
    // plus all level 2 keys
    assert!(keys.len() >= 8);
}

#[test]
fn test_middle_all_keys_with_shift() {
    let layout = AzertyLayout::new();
    let keys = get_finger_pair_keys(&layout, FingerPairType::Middle, 3, true);

    // both base and shift variants
    assert!(keys.contains(&'d'));
    assert!(keys.contains(&'D'));
    assert!(keys.contains(&'\''));
    assert!(keys.contains(&'4')); // shift of '
    assert!(keys.contains(&'_'));
    assert!(keys.contains(&'8')); // shift of _
}

#[test]
fn test_all_finger_pairs_level_1() {
    let layout = AzertyLayout::new();
    for pair in [
        FingerPairType::Pinky,
        FingerPairType::Ring,
        FingerPairType::Middle,
        FingerPairType::Index,
    ] {
        let keys = get_finger_pair_keys(&layout, pair, 1, false);
        assert!(!keys.is_empty(), "Level 1 should have keys for {:?}", pair);
    }
}

#[test]
fn finger_generator_test_level_progression() {
    let layout = AzertyLayout::new();
    let l1 = get_finger_pair_keys(&layout, FingerPairType::Index, 1, false);
    let l2 = get_finger_pair_keys(&layout, FingerPairType::Index, 2, false);
    let l3 = get_finger_pair_keys(&layout, FingerPairType::Index, 3, false);

    assert!(l2.len() > l1.len(), "Level 2 should have more keys than Level 1");
    assert!(l3.len() > l2.len(), "Level 3 should have more keys than Level 2");
}

#[test]
fn test_no_placeholder_keys() {
    let layout = AzertyLayout::new();
    for pair in [
        FingerPairType::Pinky,
        FingerPairType::Ring,
        FingerPairType::Middle,
        FingerPairType::Index,
    ] {
        for level in 1..=3 {
            let keys = get_finger_pair_keys(&layout, pair, level, false);
            assert!(!keys.contains(&'\0'), "Should not contain null character");
            assert!(!keys.contains(&'\n'), "Should not contain newline");
        }
    }
}

#[test]
fn test_generate_base_drills() {
    let keys = vec!['d', 'k'];
    let content = generate_finger_drills(&keys, 50, false);

    assert!(!content.is_empty());
    assert!(content.len() <= 50);
    assert!(content.contains('d') && content.contains('k'));
}

#[test]
fn test_generate_shift_drills() {
    let keys = vec!['d', 'D', 'k', 'K'];
    let content = generate_finger_drills(&keys, 100, true);

    assert!(!content.is_empty());
    assert!(content.len() <= 100);
    // both lowercase and uppercase forms appear
    assert!(content.contains('d') || content.contains('D'));
    assert!(content.contains('k') || content.contains('K'));
}

#[test]
fn test_content_generation_all_lessons() {
    let layout = AzertyLayout::new();
    for pair in [
        FingerPairType::Pinky,
        FingerPairType::Ring,
        FingerPairType::Middle,
        FingerPairType::Index,
    ] {
        for level in 1..=3 {
            for with_shift in [false, true] {
                let keys = get_finger_pair_keys(&layout, pair, level, with_shift);
                let content = generate_finger_drills(&keys, 100, with_shift);
                assert!(
                    !content.is_empty(),
                    "Content should be generated for {:?} level {} shift={}",
                    pair,
                    level,
                    with_shift
                );
                assert!(content.chars().count() <= 100);
            }
        }
    }
}
