//! Weighted practice-text generation.

use typer_core::{AdaptiveAnalytics, AdaptiveLessonGenerator, KeyStats, MasteryLevel, WeaknessDetector};

fn create_test_analytics() -> AdaptiveAnalytics {
    let mut analytics = AdaptiveAnalytics::default();

    // weak key (70% accuracy)
    let mut d_stats = KeyStats::new('d');
    d_stats.total_attempts = 50;
    d_stats.correct_attempts = 35;
    d_stats.error_count = 15;
    analytics.key_stats.push(d_stats);

    // moderate key (84% accuracy)
    let mut s_stats = KeyStats::new('s');
    s_stats.total_attempts = 50;
    s_stats.correct_attempts = 42;
    s_stats.error_count = 8;
    analytics.key_stats.push(s_stats);

    // strong key (96% accuracy)
    let mut f_stats = KeyStats::new('f');
    f_stats.total_attempts = 50;
    f_stats.correct_attempts = 48;
    f_stats.error_count = 2;
    analytics.key_stats.push(f_stats);

    analytics.total_sessions = 15;
    analytics.total_keystrokes = 500;

    analytics
}

#[test]
fn test_generate_content() {
    let analytics = create_test_analytics();
    let generator = AdaptiveLessonGenerator::new(&analytics);

    let content = generator.generate(100);

    assert!(!content.is_empty());
    assert!(content.chars().count() <= 100);
}

#[test]
fn test_generate_contains_weak_keys() {
    let analytics = create_test_analytics();
    let generator = AdaptiveLessonGenerator::new(&analytics);

    let content = generator.generate(200);

    // should contain the weak key 'd' many times over
    assert!(content.contains('d'));
}

#[test]
fn test_fallback_balanced_practice() {
    let analytics = AdaptiveAnalytics::default();
    let generator = AdaptiveLessonGenerator::new(&analytics);

    let content = generator.generate(50);

    assert!(!content.is_empty());
    assert!(content.chars().count() <= 50);
}

#[test]
fn test_empty_aggregate_yields_fallback_phrase() {
    // an aggregate with zero tracked characters falls back to the fixed
    // balanced phrase, cut to the requested length
    let analytics = AdaptiveAnalytics::default();
    let generator = AdaptiveLessonGenerator::new(&analytics);

    let content = generator.generate(100);

    assert!(!content.is_empty());
    assert!(content.chars().count() <= 100);
    assert!(content.starts_with("The quick brown fox jumps over the lazy dog"));
}

#[test]
fn test_length_zero_yields_empty() {
    let analytics = create_test_analytics();
    let generator = AdaptiveLessonGenerator::new(&analytics);
    assert_eq!(generator.generate(0), "");

    let empty = AdaptiveAnalytics::default();
    let generator = AdaptiveLessonGenerator::new(&empty);
    assert_eq!(generator.generate(0), "");
}

#[test]
fn test_length_never_exceeded() {
    let analytics = create_test_analytics();
    let generator = AdaptiveLessonGenerator::new(&analytics);
    for len in [1usize, 7, 31, 80, 257] {
        let content = generator.generate(len);
        assert!(content.chars().count() <= len);
    }
}

#[test]
fn test_get_keys_by_mastery_beginner() {
    let analytics = create_test_analytics();
    let generator = AdaptiveLessonGenerator::new(&analytics);

    let beginner = generator.get_keys_by_mastery(MasteryLevel::Beginner);

    // no keys are beginner in the test data (d: 70%, s: 84%, f: 96%)
    assert!(beginner.is_empty());
}

#[test]
fn test_get_keys_by_mastery_learning() {
    let analytics = create_test_analytics();
    let generator = AdaptiveLessonGenerator::new(&analytics);

    let learning = generator.get_keys_by_mastery(MasteryLevel::Learning);

    // 'd' (70%) and 's' (84%) are learning; 'f' is mastered
    assert!(learning.contains(&'d'));
    assert!(learning.contains(&'s'));
    assert!(!learning.contains(&'f'));
}

#[test]
fn test_get_keys_by_mastery_mastered() {
    let analytics = create_test_analytics();
    let generator = AdaptiveLessonGenerator::new(&analytics);

    let mastered = generator.get_keys_by_mastery(MasteryLevel::Mastered);

    // 'f' is mastered (96% accuracy with 48 correct attempts >= 20)
    assert!(mastered.contains(&'f'));
    assert!(!mastered.contains(&'d'));
    assert!(!mastered.contains(&'s'));
}

#[test]
fn test_multiple_generations_vary() {
    let analytics = create_test_analytics();
    let generator = AdaptiveLessonGenerator::new(&analytics);

    let content1 = generator.generate(80);
    let content2 = generator.generate(80);

    // randomness makes equality unlikely, but both must be valid
    assert!(!content1.is_empty());
    assert!(!content2.is_empty());
}

#[test]
fn test_weak_and_mastered_classification_scenario() {
    // 'd' at 50/35 (70.0%) classifies as Learning, 'f' at 50/48 (96%)
    // as Mastered; only 'd' is weak under the 80% threshold
    let analytics = create_test_analytics();

    let d = analytics.key_stats.iter().find(|k| k.key == 'd').unwrap();
    assert_eq!(MasteryLevel::from_stats(d), MasteryLevel::Learning);
    let f = analytics.key_stats.iter().find(|k| k.key == 'f').unwrap();
    assert_eq!(MasteryLevel::from_stats(f), MasteryLevel::Mastered);

    let weak = WeaknessDetector::identify_weak_keys(&analytics, 80);
    assert_eq!(weak, vec!['d']);
}
