//! The next-lesson recommendation rule.
//! Confidence is in hundredths.

use typer_core::{
    AdaptiveAnalytics, BigramStats, CharPair, KeyStats, NextLesson,
    recommend::recommend_next_lesson,
};

#[test]
fn test_few_sessions_recommends_foundational() {
    // with 5 sessions the foundational lesson wins, whatever else is there
    let mut analytics = AdaptiveAnalytics::new();
    analytics.total_sessions = 5;
    analytics.total_keystrokes = 400;
    let mut weak = KeyStats::new('d');
    weak.total_attempts = 50;
    weak.correct_attempts = 25;
    analytics.key_stats.push(weak);

    let r = recommend_next_lesson(&analytics);
    assert_eq!(r.lesson, NextLesson::Foundational);
    assert_eq!(r.confidence, 90);
    assert!(!r.reason.is_empty());
}

#[test]
fn test_weak_characters_recommended_next() {
    let mut analytics = AdaptiveAnalytics::new();
    analytics.total_sessions = 15;
    let mut weak = KeyStats::new('d');
    weak.total_attempts = 50;
    weak.correct_attempts = 25;
    weak.error_count = 25;
    analytics.key_stats.push(weak);

    let r = recommend_next_lesson(&analytics);
    assert_eq!(r.lesson, NextLesson::FocusedCharacters);
    assert_eq!(r.confidence, 85);
    assert!(r.reason.contains('d'));
}

#[test]
fn test_weak_pairs_recommended_after_characters() {
    let mut analytics = AdaptiveAnalytics::new();
    analytics.total_sessions = 15;
    let mut pair = BigramStats::new(CharPair::new('d', 'k'));
    pair.total_attempts = 20;
    pair.correct_attempts = 10; // 50% accuracy
    analytics.bigram_stats.push(pair);

    let r = recommend_next_lesson(&analytics);
    assert_eq!(r.lesson, NextLesson::FocusedPairs);
    assert_eq!(r.confidence, 80);
}

#[test]
fn test_no_weakness_recommends_expansion() {
    let mut analytics = AdaptiveAnalytics::new();
    analytics.total_sessions = 15;
    let mut strong = KeyStats::new('f');
    strong.total_attempts = 50;
    strong.correct_attempts = 48;
    analytics.key_stats.push(strong);

    let r = recommend_next_lesson(&analytics);
    assert_eq!(r.lesson, NextLesson::SkillExpansion);
    assert_eq!(r.confidence, 75);
}
