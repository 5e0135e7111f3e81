//! Common-word drill and sentence generation.

use std::collections::HashMap;

use typer_core::{CommonWordGenerator, Language};

#[test]
fn test_drill_mode_has_repetition() {
    let gen = CommonWordGenerator::new(Language::French);
    let content = gen.generate(1, 50);

    assert!(!content.is_empty());
    assert!(content.chars().count() <= 50);

    // count word occurrences
    let counts: HashMap<_, usize> = content.split_whitespace().fold(HashMap::new(), |mut acc, w| {
        *acc.entry(w).or_insert(0) += 1;
        acc
    });

    // drill mode should have repeated words
    assert!(counts.values().any(|&c| c > 1), "Drill mode should repeat words");
}

#[test]
fn test_sentence_mode_has_variety() {
    let gen = CommonWordGenerator::new(Language::English);
    let content = gen.generate(2, 100);

    assert!(!content.is_empty());
    assert!(content.chars().count() <= 100);

    // should have multiple different words
    let unique_words: std::collections::HashSet<_> = content.split_whitespace().collect();

    assert!(unique_words.len() >= 5, "Sentence mode should have variety");
}

#[test]
fn test_level_word_selection() {
    let gen = CommonWordGenerator::new(Language::English);

    let level1 = gen.select_words_for_level(1);
    let level2 = gen.select_words_for_level(2);
    let level3 = gen.select_words_for_level(3);
    let level4 = gen.select_words_for_level(4);

    assert_eq!(level1.len(), 50);
    assert_eq!(level2.len(), 100);
    assert_eq!(level3.len(), 200);
    assert_eq!(level4.len(), 500);
}

#[test]
fn test_content_length_constraint() {
    let gen = CommonWordGenerator::new(Language::French);

    let content1 = gen.generate(1, 30);
    let content2 = gen.generate(2, 50);
    let content3 = gen.generate(3, 75);

    assert!(content1.chars().count() <= 30);
    assert!(content2.chars().count() <= 50);
    assert!(content3.chars().count() <= 75);
}

#[test]
fn test_empty_on_invalid_level() {
    let gen = CommonWordGenerator::new(Language::English);
    let content = gen.generate(0, 50);
    assert_eq!(content, "");

    let content = gen.generate(5, 50);
    assert_eq!(content, "");
}

#[test]
fn test_drill_mode_uses_top_words() {
    let gen = CommonWordGenerator::new(Language::English);
    let content = gen.generate(1, 50);

    // should contain "the", the most common English word
    assert!(content.contains("the"), "Should use most common words");
}

#[test]
fn test_sentence_mode_frequency_bias() {
    let gen = CommonWordGenerator::new(Language::French);

    // a larger sample makes the frequency bias visible
    let content = gen.generate(2, 500);
    let words: Vec<&str> = content.split_whitespace().collect();

    // "le", the most common French word, sits in the favoured top fifth
    let le_count = words.iter().filter(|&&w| w == "le").count();

    assert!(le_count > 0, "Most common word should appear in sentence mode");
}
