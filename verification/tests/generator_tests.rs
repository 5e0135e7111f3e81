//! Deterministic drills and the lesson-level content dispatch.

use typer_core::generator::{
    generate_progressive_drills, generate_two_key_drills, generate_words,
};
use typer_core::{ContentGenerator, Lesson};

#[test]
fn test_generate_two_key_drills() {
    let result = generate_two_key_drills(&vec!['f', 'j'], 15);
    assert!(result.starts_with("ff jj ff jj"));
    assert!(result.len() <= 15);
}

#[test]
fn test_generate_progressive_drills() {
    let keys = vec!['f', 'j', 'd', 'k'];
    let result = generate_progressive_drills(&keys, 30);
    assert!(!result.is_empty());
    assert!(result.len() <= 30);
    // should contain patterns with the provided keys
    assert!(
        result.contains('f') || result.contains('j') || result.contains('d')
            || result.contains('k')
    );
}

#[test]
fn test_generate_words() {
    let keys = vec!['q', 's', 'd', 'f', 'g', 'h', 'j', 'k', 'l', 'm'];
    let result = generate_words(&keys, 20);
    assert!(result.contains("la") || result.contains("le") || result.contains("de"));
    assert!(result.len() <= 20);
}

#[test]
fn test_lesson_content_generator() {
    let lessons = Lesson::home_row_lessons();

    // level 1 (f, j only)
    let content1 = lessons[0].generate(20);
    assert!(!content1.is_empty());
    assert!(content1.contains('f'));
    assert!(content1.contains('j'));

    // level 2 (f, j, d, k - progressive)
    let content2 = lessons[1].generate(30);
    assert!(!content2.is_empty());
    assert!(content2.len() <= 30);

    // level 5 (all keys)
    let content5 = lessons[4].generate(30);
    assert!(!content5.is_empty());

    // level 6 (words)
    let content6 = lessons[5].generate(25);
    assert!(!content6.is_empty());
}
