//! Mastery classification and per-record statistics.
//! Ratios are reported in hundredths of a percent.

use typer_core::{BigramStats, CharPair, KeyStats, MasteryLevel};

#[test]
fn test_mastery_level_beginner() {
    let stats = KeyStats::new('f');
    assert_eq!(MasteryLevel::from_stats(&stats), MasteryLevel::Beginner);

    let mut stats = KeyStats::new('f');
    stats.total_attempts = 3;
    stats.correct_attempts = 3;
    assert_eq!(MasteryLevel::from_stats(&stats), MasteryLevel::Beginner);
}

#[test]
fn test_mastery_level_learning() {
    let mut stats = KeyStats::new('f');
    stats.total_attempts = 50;
    stats.correct_attempts = 40; // 80% accuracy
    assert_eq!(MasteryLevel::from_stats(&stats), MasteryLevel::Learning);
}

#[test]
fn test_mastery_level_proficient() {
    let mut stats = KeyStats::new('f');
    stats.total_attempts = 50;
    stats.correct_attempts = 45; // 90% accuracy
    assert_eq!(MasteryLevel::from_stats(&stats), MasteryLevel::Proficient);
}

#[test]
fn test_mastery_level_mastered() {
    let mut stats = KeyStats::new('f');
    stats.total_attempts = 100;
    stats.correct_attempts = 96; // 96% accuracy with 20+ correct
    assert_eq!(MasteryLevel::from_stats(&stats), MasteryLevel::Mastered);
}

#[test]
fn test_key_stats_accuracy() {
    let mut stats = KeyStats::new('f');
    stats.total_attempts = 100;
    stats.correct_attempts = 85;
    assert_eq!(stats.accuracy(), 8500);
}

#[test]
fn test_key_stats_error_rate() {
    let mut stats = KeyStats::new('f');
    stats.total_attempts = 100;
    stats.error_count = 15;
    assert_eq!(stats.error_rate(), 1500);
}

#[test]
fn test_key_stats_average_time() {
    let mut stats = KeyStats::new('f');
    stats.correct_attempts = 10;
    stats.total_time_ms = 2000; // 2 seconds total
    assert_eq!(stats.average_time_ms(), 200); // 200ms per key
}

#[test]
fn test_bigram_stats_accuracy() {
    let mut stats = BigramStats::new(CharPair::new('f', 'j'));
    stats.total_attempts = 50;
    stats.correct_attempts = 45;
    assert_eq!(stats.accuracy(), 9000);
}

#[test]
fn test_bigram_stats_average_time() {
    let mut stats = BigramStats::new(CharPair::new('f', 'j'));
    stats.total_attempts = 10;
    stats.correct_attempts = 10;
    stats.total_time_ms = 1500;
    assert_eq!(stats.average_time_ms(), 150);

    let empty = BigramStats::new(CharPair::new('d', 'k'));
    assert_eq!(empty.average_time_ms(), 0);
}

#[test]
fn test_practice_weights() {
    assert_eq!(MasteryLevel::Beginner.practice_weight(), 60);
    assert_eq!(MasteryLevel::Learning.practice_weight(), 30);
    assert_eq!(MasteryLevel::Proficient.practice_weight(), 10);
    assert_eq!(MasteryLevel::Mastered.practice_weight(), 5);
}

#[test]
fn test_ratios_stay_in_range() {
    // accuracy and error rate always lie between 0 and 100 percent
    let mut stats = KeyStats::new('x');
    assert_eq!(stats.accuracy(), 0);
    assert_eq!(stats.error_rate(), 0);
    stats.total_attempts = 7;
    stats.correct_attempts = 7;
    stats.error_count = 7;
    assert!(stats.accuracy() <= 10000);
    assert!(stats.error_rate() <= 10000);
    stats.correct_attempts = 3;
    stats.error_count = 2;
    assert!(stats.accuracy() <= 10000);
    assert!(stats.error_rate() <= 10000);
}

#[test]
fn test_mastery_is_pure_and_monotone() {
    // same counters always classify the same; more correct never demotes
    let mut a = KeyStats::new('a');
    a.total_attempts = 40;
    a.correct_attempts = 30;
    let mut b = KeyStats::new('b');
    b.total_attempts = 40;
    b.correct_attempts = 30;
    assert_eq!(MasteryLevel::from_stats(&a), MasteryLevel::from_stats(&b));

    let rank = |l: MasteryLevel| match l {
        MasteryLevel::Beginner => 0,
        MasteryLevel::Learning => 1,
        MasteryLevel::Proficient => 2,
        MasteryLevel::Mastered => 3,
    };
    let mut prev: i32 = 0;
    for correct in 0..=40u64 {
        let mut s = KeyStats::new('c');
        s.total_attempts = 40;
        s.correct_attempts = correct;
        let r = rank(MasteryLevel::from_stats(&s));
        assert!(r >= prev, "accuracy rose but level fell at correct={}", correct);
        prev = r;
    }
}
