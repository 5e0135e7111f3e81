//! Weakness detection over the aggregate.

use typer_core::{AdaptiveAnalytics, BigramStats, CharPair, KeyStats, WeaknessDetector};

fn create_test_analytics() -> AdaptiveAnalytics {
    let mut analytics = AdaptiveAnalytics::default();

    // strong key (f: 96% accuracy)
    let mut f_stats = KeyStats::new('f');
    f_stats.total_attempts = 50;
    f_stats.correct_attempts = 48;
    analytics.key_stats.push(f_stats);

    // weak key (d: 70% accuracy)
    let mut d_stats = KeyStats::new('d');
    d_stats.total_attempts = 50;
    d_stats.correct_attempts = 35;
    analytics.key_stats.push(d_stats);

    // very weak key (s: 50% accuracy)
    let mut s_stats = KeyStats::new('s');
    s_stats.total_attempts = 50;
    s_stats.correct_attempts = 25;
    analytics.key_stats.push(s_stats);

    analytics.total_sessions = 10;
    analytics.total_keystrokes = 500;

    analytics
}

#[test]
fn test_identify_weak_keys() {
    let analytics = create_test_analytics();
    let weak_keys = WeaknessDetector::identify_weak_keys(&analytics, 80);

    // should identify d and s as weak (both below 80%)
    assert!(weak_keys.contains(&'d'));
    assert!(weak_keys.contains(&'s'));
    // should not include f (96% accuracy)
    assert!(!weak_keys.contains(&'f'));
}

#[test]
fn test_identify_weak_keys_minimum_attempts() {
    let mut analytics = AdaptiveAnalytics::default();

    // key with low accuracy but insufficient attempts
    let mut k_stats = KeyStats::new('k');
    k_stats.total_attempts = 5; // below the minimum threshold of 10
    k_stats.correct_attempts = 2; // 40% accuracy
    analytics.key_stats.push(k_stats);

    let weak_keys = WeaknessDetector::identify_weak_keys(&analytics, 80);

    // should not include a key with insufficient data
    assert!(!weak_keys.contains(&'k'));
}

#[test]
fn test_identify_weak_keys_caps_at_five() {
    let mut analytics = AdaptiveAnalytics::default();
    for (i, c) in ['a', 'b', 'c', 'd', 'e', 'f', 'g'].iter().enumerate() {
        let mut s = KeyStats::new(*c);
        s.total_attempts = 20;
        s.correct_attempts = 4 + i as u64; // all far below 80%
        s.error_count = 16 - i as u64;
        analytics.key_stats.push(s);
    }
    let weak_keys = WeaknessDetector::identify_weak_keys(&analytics, 80);
    assert_eq!(weak_keys.len(), 5);
    // sorted by error rate, worst first
    assert_eq!(weak_keys[0], 'a');
}

#[test]
fn test_identify_slow_keys() {
    let mut analytics = AdaptiveAnalytics::default();

    // several keys with varying speeds
    let keys_and_times = [
        ('a', 100), // fast
        ('b', 120),
        ('c', 150),
        ('d', 200), // medium
        ('e', 250),
        ('f', 300), // slow
        ('g', 350), // very slow
    ];

    for (key, time_ms) in keys_and_times {
        let mut stats = KeyStats::new(key);
        stats.correct_attempts = 10;
        stats.total_attempts = 10;
        stats.total_time_ms = time_ms;
        analytics.key_stats.push(stats);
    }

    // keys slower than the 75th percentile (the slowest quarter)
    let slow_keys = WeaknessDetector::identify_slow_keys(&analytics, 75);

    // with 7 keys the 75th percentile index is 5 (0-based), value 300;
    // only keys strictly above 300 are returned: 'g' (350), not 'f' (300)
    assert_eq!(slow_keys, vec!['g']);
}

#[test]
fn test_identify_slow_keys_empty_without_data() {
    let analytics = AdaptiveAnalytics::default();
    let slow_keys = WeaknessDetector::identify_slow_keys(&analytics, 75);
    assert!(slow_keys.is_empty());

    // a key with fewer than 5 correct attempts does not qualify either
    let mut analytics = AdaptiveAnalytics::default();
    let mut s = KeyStats::new('q');
    s.total_attempts = 4;
    s.correct_attempts = 4;
    s.total_time_ms = 10_000;
    analytics.key_stats.push(s);
    let slow_keys = WeaknessDetector::identify_slow_keys(&analytics, 75);
    assert!(slow_keys.is_empty());
}

#[test]
fn test_identify_weak_bigrams() {
    let mut analytics = AdaptiveAnalytics::default();

    // strong pair
    let mut fj_stats = BigramStats::new(CharPair::new('f', 'j'));
    fj_stats.total_attempts = 20;
    fj_stats.correct_attempts = 19; // 95% accuracy
    analytics.bigram_stats.push(fj_stats);

    // weak pair
    let mut dk_stats = BigramStats::new(CharPair::new('d', 'k'));
    dk_stats.total_attempts = 20;
    dk_stats.correct_attempts = 15; // 75% accuracy
    analytics.bigram_stats.push(dk_stats);

    // a second weak pair, slightly less weak than dk
    let mut sl_stats = BigramStats::new(CharPair::new('s', 'l'));
    sl_stats.total_attempts = 20;
    sl_stats.correct_attempts = 16; // 80% accuracy
    analytics.bigram_stats.push(sl_stats);

    let weak_bigrams = WeaknessDetector::identify_weak_bigrams(&analytics);

    // should identify dk and sl as weak (below 85%), lowest accuracy first
    assert_eq!(
        weak_bigrams,
        vec![CharPair::new('d', 'k'), CharPair::new('s', 'l')]
    );
    // should not include fj (95% accuracy)
    assert!(!weak_bigrams.contains(&CharPair::new('f', 'j')));
}
