//! The session log, the aggregate merge, and the adaptive-mode gate.
//! `wpm` and `accuracy` are in hundredths; durations in milliseconds.

use typer_core::{
    should_show_adaptive_mode, AdaptiveAnalytics, CharInput, KeyStats, SessionAnalyzer,
    SessionRecord, Stats, TypingSession,
};

fn record(lesson: &str, wpm: u64, accuracy: u64) -> SessionRecord {
    SessionRecord::new(lesson.to_string(), wpm, accuracy, 60_000, "2024-01-01T00:00:00Z".to_string())
}

#[test]
fn test_stats_new() {
    let stats = Stats::new();
    assert_eq!(stats.session_count(), 0);
    assert_eq!(stats.average_wpm(), 0);
}

#[test]
fn test_stats_add_session() {
    let mut stats = Stats::new();
    stats.add_session(record("HomeRow-1", 4500, 9500));
    assert_eq!(stats.session_count(), 1);
}

#[test]
fn test_stats_averages() {
    let mut stats = Stats::new();
    stats.add_session(record("HomeRow-1", 4000, 9000));
    stats.add_session(record("HomeRow-2", 6000, 10000));

    assert_eq!(stats.average_wpm(), 5000);
    assert_eq!(stats.average_accuracy(), 9500);
}

fn sample_session() -> TypingSession {
    let mut session = TypingSession::new("fjfj".to_string(), 60_000);
    session.add_input('f', 0);
    session.add_input('j', 150);
    session.add_input('x', 300); // error instead of f
    session.add_input('j', 450);
    session
}

#[test]
fn test_update_analytics_merges_session() {
    let mut stats = Stats::new();
    let session = sample_session();
    let analysis = SessionAnalyzer::new().analyze_session(&session);
    stats.update_analytics(&session, &analysis, 1_000_000);

    let agg = stats.adaptive_analytics.as_ref().expect("aggregate created");
    assert_eq!(agg.total_sessions, 1);
    assert_eq!(agg.total_keystrokes, 4);
    let f = agg.key_stats.iter().find(|k| k.key == 'f').unwrap();
    assert_eq!(f.total_attempts, 2);
    assert_eq!(f.correct_attempts, 1);
    assert_eq!(f.error_count, 1);
    assert_eq!(f.mistype_map, vec![('x', 1)]);
    assert_eq!(f.last_practiced, Some(1_000_000));
}

#[test]
fn test_merge_is_deterministic() {
    // merging the same session into two fresh aggregates yields
    // identical aggregates
    let session = sample_session();
    let analysis1 = SessionAnalyzer::new().analyze_session(&session);
    let analysis2 = SessionAnalyzer::new().analyze_session(&session);

    let mut a1 = AdaptiveAnalytics::new();
    let mut a2 = AdaptiveAnalytics::new();
    a1.merge_session(&analysis1, session.inputs.len(), 42);
    a2.merge_session(&analysis2, session.inputs.len(), 42);

    assert_eq!(a1, a2);
}

#[test]
fn test_check_well_formed() {
    let mut agg = AdaptiveAnalytics::new();
    assert!(agg.check_well_formed());

    let mut good = KeyStats::new('a');
    good.total_attempts = 10;
    good.correct_attempts = 8;
    good.error_count = 2;
    agg.key_stats.push(good);
    assert!(agg.check_well_formed());

    // a duplicate tracked character breaks well-formedness
    agg.key_stats.push(KeyStats::new('a'));
    assert!(!agg.check_well_formed());
    agg.key_stats.pop();

    // counters out of order break it too
    let mut bad = KeyStats::new('b');
    bad.total_attempts = 3;
    bad.correct_attempts = 5;
    agg.key_stats.push(bad);
    assert!(!agg.check_well_formed());
}

#[test]
fn test_should_show_adaptive_mode() {
    let mut stats = Stats::new();
    assert!(!should_show_adaptive_mode(&stats));

    let mut agg = AdaptiveAnalytics::new();
    agg.total_sessions = 9;
    agg.total_keystrokes = 500;
    stats.adaptive_analytics = Some(agg);
    assert!(!should_show_adaptive_mode(&stats));

    let mut agg = AdaptiveAnalytics::new();
    agg.total_sessions = 10;
    agg.total_keystrokes = 100;
    stats.adaptive_analytics = Some(agg);
    assert!(should_show_adaptive_mode(&stats));
}
