//! Session scoring: words per minute and accuracy in hundredths.

use typer_core::{calculate_accuracy, calculate_results, calculate_wpm, TypingSession};

#[test]
fn test_calculate_wpm_zero_duration() {
    let wpm = calculate_wpm(100, 0);
    assert_eq!(wpm, 0);
}

#[test]
fn test_calculate_wpm_one_minute() {
    // 100 characters in 1 minute = 20 words/min
    let wpm = calculate_wpm(100, 60_000);
    assert_eq!(wpm, 2000);
}

#[test]
fn test_calculate_wpm_thirty_seconds() {
    // 50 characters in 30 seconds = 20 words/min
    let wpm = calculate_wpm(50, 30_000);
    assert_eq!(wpm, 2000);
}

#[test]
fn test_calculate_accuracy_perfect() {
    let accuracy = calculate_accuracy(100, 100);
    assert_eq!(accuracy, 10000);
}

#[test]
fn test_calculate_accuracy_half() {
    let accuracy = calculate_accuracy(50, 100);
    assert_eq!(accuracy, 5000);
}

#[test]
fn test_calculate_accuracy_zero_total() {
    let accuracy = calculate_accuracy(0, 0);
    assert_eq!(accuracy, 0);
}

#[test]
fn test_calculate_results() {
    let mut session = TypingSession::new("hello".to_string(), 60_000);
    session.start(0);

    session.add_input('h', 0); // correct
    session.add_input('e', 100); // correct
    session.add_input('x', 200); // incorrect
    session.add_input('l', 300); // correct
    session.add_input('o', 400); // correct

    let result = calculate_results(&session, 400);

    assert_eq!(result.char_count, 5);
    assert_eq!(result.error_count, 1);
    assert_eq!(result.accuracy, 8000); // 4/5 = 80%
    assert_eq!(result.duration, 400);
    assert!(result.wpm > 0);
}
