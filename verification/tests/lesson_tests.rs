//! The lesson catalog and the AZERTY shift table.

use typer_core::lesson::get_shifted_char;
use typer_core::{BigramType, Language, Lesson, LessonType, ProgrammingLanguage};

#[test]
fn test_key_pair_lessons_count() {
    let lessons = Lesson::key_pair_lessons();
    assert_eq!(lessons.len(), 17);
}

#[test]
fn test_key_pair_lesson_first() {
    let lessons = Lesson::key_pair_lessons();
    let lesson = &lessons[0];
    assert_eq!(lesson.lesson_type, LessonType::KeyPair { lesson_id: 1 });
    assert_eq!(lesson.keys, vec!['f', 'd', 'j', 'k']);
}

#[test]
fn test_key_pair_groups_count() {
    let lessons_without_shift = Lesson::key_pair_group_lessons(false);
    let lessons_with_shift = Lesson::key_pair_group_lessons(true);
    assert_eq!(lessons_without_shift.len(), 4);
    assert_eq!(lessons_with_shift.len(), 4);
}

#[test]
fn test_shifted_char_mapping() {
    assert_eq!(get_shifted_char('a'), Some('A'));
    assert_eq!(get_shifted_char('z'), Some('Z'));
    assert_eq!(get_shifted_char('&'), Some('1'));
    assert_eq!(get_shifted_char(';'), Some('.'));
    assert_eq!(get_shifted_char('x'), Some('X')); // lowercase letters map to uppercase
    assert_eq!(get_shifted_char('@'), None); // symbols without mapping return None
}

#[test]
fn test_finger_pair_lessons_count() {
    let lessons = Lesson::finger_pair_lessons();
    assert_eq!(lessons.len(), 24);
    assert!(lessons.iter().all(|l| matches!(l.lesson_type, LessonType::FingerPair { .. })));
}

#[test]
fn test_catalog_builders() {
    assert_eq!(Lesson::code_symbol_lessons(ProgrammingLanguage::Rust).len(), 6);
    assert_eq!(Lesson::bigram_lessons(BigramType::Natural, Some(Language::French)).len(), 4);
    assert_eq!(Lesson::trigram_lessons(Language::English).len(), 4);
    assert_eq!(Lesson::common_word_lessons(Language::English).len(), 4);
    assert_eq!(Lesson::adaptive_lesson().lesson_type, LessonType::Adaptive);
    assert_eq!(Lesson::home_row_lessons().len(), 6);
}
