//! Per-session analysis of the keystroke log.

use typer_core::{CharInput, CharPair, KeyPerformance, SessionAnalyzer, TypingSession};

fn key_perf<'a>(list: &'a [(char, KeyPerformance)], c: char) -> &'a KeyPerformance {
    &list.iter().find(|e| e.0 == c).expect("key not analyzed").1
}

#[test]
fn test_session_analyzer_basic() {
    let session = TypingSession {
        content: "test".to_string(),
        current_index: 4,
        duration_limit: 300_000,
        content_buffer_size: 4,
        inputs: vec![
            CharInput { expected: 't', typed: 't', timestamp: 100, is_correct: true },
            CharInput { expected: 'e', typed: 'e', timestamp: 250, is_correct: true },
            CharInput { expected: 's', typed: 's', timestamp: 400, is_correct: true },
            CharInput { expected: 't', typed: 't', timestamp: 550, is_correct: true },
        ],
        start_time: Some(0),
        end_time: Some(550),
    };

    let analyzer = SessionAnalyzer::new();
    let analysis = analyzer.analyze_session(&session);

    // check key performance
    assert_eq!(analysis.key_performance.len(), 3); // t, e, s
    assert_eq!(key_perf(&analysis.key_performance, 't').total_attempts, 2);
    assert_eq!(key_perf(&analysis.key_performance, 't').correct_attempts, 2);
    assert_eq!(key_perf(&analysis.key_performance, 'e').total_attempts, 1);
    assert_eq!(key_perf(&analysis.key_performance, 's').total_attempts, 1);
}

#[test]
fn test_analyzer_records_errors_and_pairs() {
    let session = TypingSession {
        content: "ab".to_string(),
        current_index: 2,
        duration_limit: 300_000,
        content_buffer_size: 2,
        inputs: vec![
            CharInput::new('a', 'a', 100),
            CharInput::new('b', 'x', 250), // error: typed x
            CharInput::new('a', 'a', 400),
            CharInput::new('b', 'b', 600),
        ],
        start_time: Some(0),
        end_time: Some(600),
    };

    let analysis = SessionAnalyzer::new().analyze_session(&session);

    let b = key_perf(&analysis.key_performance, 'b');
    assert_eq!(b.total_attempts, 2);
    assert_eq!(b.correct_attempts, 1);
    assert_eq!(b.errors, vec!['x']);
    assert_eq!(b.timings, vec![600]);

    // only the fully correct a->b at the end forms a pair
    assert_eq!(analysis.bigram_performance.len(), 1);
    let (pair, perf) = &analysis.bigram_performance[0];
    assert_eq!(*pair, CharPair::new('a', 'b'));
    assert_eq!(perf.total_attempts, 1);
    assert_eq!(perf.correct_attempts, 1);
    assert_eq!(perf.timings, vec![200]); // 600 - 400
}

#[test]
fn test_analyzer_empty_session() {
    let session = TypingSession::new(String::new(), 60_000);
    let analysis = SessionAnalyzer::new().analyze_session(&session);
    assert!(analysis.key_performance.is_empty());
    assert!(analysis.bigram_performance.is_empty());
}
