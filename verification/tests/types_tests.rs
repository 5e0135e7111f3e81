//! Session state transitions. All times are in milliseconds, passed in
//! as explicit clock readings.

use typer_core::{CharInput, SessionDuration, TypingSession};

#[test]
fn test_char_input_correct() {
    let input = CharInput::new('a', 'a', 1000);
    assert!(input.is_correct);
    assert_eq!(input.expected, 'a');
    assert_eq!(input.typed, 'a');
}

#[test]
fn test_char_input_incorrect() {
    let input = CharInput::new('a', 'b', 1000);
    assert!(!input.is_correct);
    assert_eq!(input.expected, 'a');
    assert_eq!(input.typed, 'b');
}

#[test]
fn test_typing_session_new() {
    let session = TypingSession::new("hello".to_string(), 60_000);
    assert_eq!(session.content, "hello");
    assert_eq!(session.current_index, 0);
    assert!(session.inputs.is_empty());
    assert!(session.start_time.is_none());
    assert_eq!(session.duration_limit, 60_000);
    assert_eq!(session.content_buffer_size, 5);
}

#[test]
fn test_typing_session_start() {
    let mut session = TypingSession::new("hello".to_string(), 60_000);
    session.start(0);
    assert!(session.start_time.is_some());
}

#[test]
fn test_typing_session_add_input() {
    let mut session = TypingSession::new("ab".to_string(), 60_000);
    // the timer starts on the first keystroke

    assert!(session.add_input('a', 0)); // correct
    assert_eq!(session.current_index, 1);
    assert_eq!(session.inputs.len(), 1);
    assert!(session.start_time.is_some()); // timer started on first input

    assert!(!session.add_input('c', 100)); // incorrect
    assert_eq!(session.current_index, 2);
    assert_eq!(session.inputs.len(), 2);
    assert!(session.is_complete(100));
}

#[test]
fn test_typing_session_complete() {
    let mut session = TypingSession::new("hi".to_string(), 60_000);

    assert!(!session.is_complete(0));
    session.add_input('h', 0); // timer starts here
    assert!(!session.is_complete(50));
    session.add_input('i', 100);
    assert!(session.is_complete(100));
    assert!(session.end_time.is_some());
}

#[test]
fn test_typing_session_backspace() {
    let mut session = TypingSession::new("abc".to_string(), 60_000);

    session.add_input('a', 0); // timer starts here
    session.add_input('x', 100); // wrong character
    assert_eq!(session.current_index, 2);
    assert_eq!(session.inputs.len(), 2);

    // backspace should remove the last input
    assert!(session.remove_last_input());
    assert_eq!(session.current_index, 1);
    assert_eq!(session.inputs.len(), 1);

    // now type the correct character
    session.add_input('b', 200);
    assert_eq!(session.current_index, 2);
    assert_eq!(session.inputs.len(), 2);
}

#[test]
fn test_typing_session_backspace_at_start() {
    let mut session = TypingSession::new("abc".to_string(), 60_000);

    // backspace at start should return false and do nothing
    assert!(!session.remove_last_input());
    assert_eq!(session.current_index, 0);
    assert_eq!(session.inputs.len(), 0);
}

#[test]
fn test_typing_session_backspace_after_completion() {
    let mut session = TypingSession::new("ab".to_string(), 60_000);

    session.add_input('a', 0); // timer starts here
    session.add_input('b', 100);
    assert!(session.is_complete(100));
    assert!(session.end_time.is_some());

    // backspace after completion should clear the end time
    assert!(session.remove_last_input());
    assert!(!session.is_complete(100));
    assert!(session.end_time.is_none());
}

#[test]
fn test_session_duration_presets() {
    assert_eq!(SessionDuration::TwoMinutes.as_duration(), 120_000);
    assert_eq!(SessionDuration::FifteenMinutes.as_duration(), 900_000);
    assert_eq!(SessionDuration::all().len(), 5);
    assert_eq!(SessionDuration::ThreeMinutes.label(), "3 minutes");
}

#[test]
fn test_remaining_time_and_content_cue() {
    let mut session = TypingSession::new("abc".to_string(), 60_000);
    assert_eq!(session.remaining_time(5_000), 60_000);
    session.add_input('a', 1_000);
    assert_eq!(session.remaining_time(11_000), 50_000);
    assert!(session.needs_more_content());
    session.append_content("xyz".to_string());
    assert_eq!(session.content, "abc xyz");
    assert_eq!(session.content_buffer_size, 7);
}
