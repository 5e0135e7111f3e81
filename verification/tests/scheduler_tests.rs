//! Spaced repetition intervals and the due-for-practice check.
//! Intervals are in seconds; accuracy in hundredths of a percent.

use typer_core::{needs_practice, next_interval, KeyStats, MasteryLevel};

#[test]
fn test_beginner_always_immediate() {
    assert_eq!(next_interval(MasteryLevel::Beginner, 0), 0);
    assert_eq!(next_interval(MasteryLevel::Beginner, 5000), 0);
    assert_eq!(next_interval(MasteryLevel::Beginner, 10000), 0);
}

#[test]
fn test_mastered_always_a_week() {
    assert_eq!(next_interval(MasteryLevel::Mastered, 0), 604_800);
    assert_eq!(next_interval(MasteryLevel::Mastered, 9500), 604_800);
    assert_eq!(next_interval(MasteryLevel::Mastered, 10000), 604_800);
}

#[test]
fn test_learning_and_proficient_split_on_accuracy() {
    assert_eq!(next_interval(MasteryLevel::Learning, 7999), 1_800); // 30 min
    assert_eq!(next_interval(MasteryLevel::Learning, 8000), 7_200); // 2 h
    assert_eq!(next_interval(MasteryLevel::Proficient, 8999), 86_400); // 1 day
    assert_eq!(next_interval(MasteryLevel::Proficient, 9000), 259_200); // 3 days
}

#[test]
fn test_needs_practice_when_never_practiced() {
    let stats = KeyStats::new('f');
    assert!(needs_practice(&stats, 123_456));
}

#[test]
fn test_needs_practice_after_interval() {
    let mut stats = KeyStats::new('f');
    stats.total_attempts = 50;
    stats.correct_attempts = 40; // 80% accuracy
    stats.mastery_level = MasteryLevel::Learning; // interval: 2 hours
    stats.last_practiced = Some(1_000_000);

    // one hour later: not yet due
    assert!(!needs_practice(&stats, 1_000_000 + 3_600_000));
    // two hours later: due
    assert!(needs_practice(&stats, 1_000_000 + 7_200_000));
}
