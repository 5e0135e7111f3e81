//! Front-matter line parsing and lesson title de-duplication.

use typer_core::custom::{deduplicate_titles, parse_yaml_line};
use typer_core::{Lesson, LessonType};

#[test]
fn test_parse_yaml_line_valid() {
    assert_eq!(
        parse_yaml_line("title: My Lesson"),
        Some(("title".to_string(), "My Lesson".to_string()))
    );

    assert_eq!(
        parse_yaml_line("description: Practice typing"),
        Some(("description".to_string(), "Practice typing".to_string()))
    );
}

#[test]
fn test_parse_yaml_line_with_colon_in_value() {
    assert_eq!(
        parse_yaml_line("title: Lesson: Advanced"),
        Some(("title".to_string(), "Lesson: Advanced".to_string()))
    );
}

#[test]
fn test_parse_yaml_line_invalid() {
    assert_eq!(parse_yaml_line("invalid line"), None);
    assert_eq!(parse_yaml_line("key:"), None);
    assert_eq!(parse_yaml_line(":value"), None);
    assert_eq!(parse_yaml_line(""), None);
}

fn custom_lesson(title: &str, content: &str) -> Lesson {
    Lesson {
        title: title.to_string(),
        description: "".to_string(),
        keys: vec![],
        lesson_type: LessonType::Custom { content: content.to_string() },
    }
}

#[test]
fn test_deduplicate_titles_none() {
    let mut lessons = vec![
        custom_lesson("Lesson 1", "content"),
        custom_lesson("Lesson 2", "content"),
    ];

    deduplicate_titles(&mut lessons);

    assert_eq!(lessons[0].title, "Lesson 1");
    assert_eq!(lessons[1].title, "Lesson 2");
}

#[test]
fn test_deduplicate_titles_two() {
    let mut lessons = vec![
        custom_lesson("Same", "content1"),
        custom_lesson("Same", "content2"),
    ];

    deduplicate_titles(&mut lessons);

    assert_eq!(lessons[0].title, "Same (1)");
    assert_eq!(lessons[1].title, "Same (2)");
}

#[test]
fn test_deduplicate_titles_three() {
    let mut lessons = vec![
        custom_lesson("Duplicate", "content1"),
        custom_lesson("Duplicate", "content2"),
        custom_lesson("Duplicate", "content3"),
    ];

    deduplicate_titles(&mut lessons);

    assert_eq!(lessons[0].title, "Duplicate (1)");
    assert_eq!(lessons[1].title, "Duplicate (2)");
    assert_eq!(lessons[2].title, "Duplicate (3)");
}
