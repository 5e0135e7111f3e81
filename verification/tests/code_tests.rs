//! Code snippet tables and the code symbol generator.

use typer_core::{CodeSymbolGenerator, ProgrammingLanguage};
use typer_core::code_symbols::{python_snippets, rust_snippets, typescript_snippets};

#[test]
fn test_typescript_snippets_count() {
    let snippets = typescript_snippets();
    assert!(!snippets.is_empty());
    assert!(snippets.len() >= 18); // at least 3 per level x 6 levels
}

#[test]
fn test_rust_snippets_count() {
    let snippets = rust_snippets();
    assert!(!snippets.is_empty());
    assert!(snippets.len() >= 18);
}

#[test]
fn test_python_snippets_count() {
    let snippets = python_snippets();
    assert!(!snippets.is_empty());
    assert!(snippets.len() >= 18);
}

#[test]
fn test_difficulty_progression() {
    let snippets = typescript_snippets();

    // there are snippets at each difficulty level
    for level in 1..=6 {
        let has_level = snippets.iter().any(|s| s.difficulty == level);
        assert!(has_level, "TypeScript should have snippets at level {}", level);
    }
}

#[test]
fn test_snippets_not_empty() {
    for snippet in typescript_snippets() {
        assert!(!snippet.template.is_empty());
    }
    for snippet in rust_snippets() {
        assert!(!snippet.template.is_empty());
    }
    for snippet in python_snippets() {
        assert!(!snippet.template.is_empty());
    }
}

#[test]
fn test_typescript_generation() {
    let gen = CodeSymbolGenerator::new(ProgrammingLanguage::TypeScript);
    let content = gen.generate(1, 50);

    assert!(!content.is_empty());
    assert!(content.len() <= 50);
}

#[test]
fn test_rust_generation() {
    let gen = CodeSymbolGenerator::new(ProgrammingLanguage::Rust);
    let content = gen.generate(1, 50);

    assert!(!content.is_empty());
    assert!(content.len() <= 50);
}

#[test]
fn test_python_generation() {
    let gen = CodeSymbolGenerator::new(ProgrammingLanguage::Python);
    let content = gen.generate(1, 50);

    assert!(!content.is_empty());
    assert!(content.len() <= 50);
}

#[test]
fn test_progressive_difficulty() {
    let gen = CodeSymbolGenerator::new(ProgrammingLanguage::TypeScript);

    let level1 = gen.generate(1, 100);
    let level6 = gen.generate(6, 100);

    // both should generate content
    assert!(!level1.is_empty());
    assert!(!level6.is_empty());
}

#[test]
fn code_generator_test_deterministic_generation() {
    let gen = CodeSymbolGenerator::new(ProgrammingLanguage::Rust);

    let content1 = gen.generate(3, 80);
    let content2 = gen.generate(3, 80);

    // the same level and length produce the same content
    assert_eq!(content1, content2);
}

#[test]
fn test_language_specific_content() {
    let ts_gen = CodeSymbolGenerator::new(ProgrammingLanguage::TypeScript);
    let ts_content = ts_gen.generate(6, 150);

    // TypeScript has => arrows or : type annotations
    assert!(ts_content.contains("=>") || ts_content.contains(":"));

    let rust_gen = CodeSymbolGenerator::new(ProgrammingLanguage::Rust);
    let rust_content = rust_gen.generate(6, 150);

    // Rust has recognizable Rust syntax
    assert!(
        rust_content.contains("fn") || rust_content.contains("let")
            || rust_content.contains("vec")
    );

    let py_gen = CodeSymbolGenerator::new(ProgrammingLanguage::Python);
    let py_content = py_gen.generate(6, 150);

    // Python has : colons for function definitions or the def keyword
    assert!(py_content.contains(":") || py_content.contains("def"));
}

#[test]
fn test_all_levels_generate_content() {
    let gen = CodeSymbolGenerator::new(ProgrammingLanguage::TypeScript);

    for level in 1..=6 {
        let content = gen.generate(level, 60);
        assert!(!content.is_empty(), "Level {} should generate content", level);
    }
}
