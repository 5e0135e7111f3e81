//! Session-level types: duration presets, individual keystrokes, the
//! running typing session, and the completed-session result.
//!
//! All times are plain integers in milliseconds. The session never reads a
//! clock itself: callers pass the current reading of their own clock, and
//! every function is a pure transition on the session state.

use vstd::prelude::*;
use vstd::string::StrSliceExecFns;
use vstd::string::StringExecFns;

verus! {

/// Session duration presets.
#[derive(Debug, Clone, Copy, PartialEq, Eq, Structural)]
pub enum SessionDuration {
    TwoMinutes,
    ThreeMinutes,
    FiveMinutes,
    TenMinutes,
    FifteenMinutes,
}

/// The preset's length in milliseconds.
pub open spec fn spec_duration_ms(d: SessionDuration) -> u64 {
    match d {
        SessionDuration::TwoMinutes => 120_000u64,
        SessionDuration::ThreeMinutes => 180_000u64,
        SessionDuration::FiveMinutes => 300_000u64,
        SessionDuration::TenMinutes => 600_000u64,
        SessionDuration::FifteenMinutes => 900_000u64,
    }
}

impl SessionDuration {
    /// The preset's length in milliseconds.
    pub fn as_duration(&self) -> (ms: u64)
        ensures
            ms == spec_duration_ms(*self),
    {
        match self {
            Self::TwoMinutes => 2 * 60 * 1000,
            Self::ThreeMinutes => 3 * 60 * 1000,
            Self::FiveMinutes => 5 * 60 * 1000,
            Self::TenMinutes => 10 * 60 * 1000,
            Self::FifteenMinutes => 15 * 60 * 1000,
        }
    }

    /// Every preset, in menu order.
    pub fn all() -> (v: Vec<SessionDuration>)
        ensures
            v@ =~= seq![
                SessionDuration::TwoMinutes,
                SessionDuration::ThreeMinutes,
                SessionDuration::FiveMinutes,
                SessionDuration::TenMinutes,
                SessionDuration::FifteenMinutes,
            ],
    {
        let mut v: Vec<SessionDuration> = Vec::new();
        v.push(Self::TwoMinutes);
        v.push(Self::ThreeMinutes);
        v.push(Self::FiveMinutes);
        v.push(Self::TenMinutes);
        v.push(Self::FifteenMinutes);
        v
    }

    /// Human-readable name of the preset.
    pub fn label(&self) -> (s: &'static str)
        ensures
            s@ == spec_duration_label(*self),
    {
        match self {
            Self::TwoMinutes => "2 minutes",
            Self::ThreeMinutes => "3 minutes",
            Self::FiveMinutes => "5 minutes",
            Self::TenMinutes => "10 minutes",
            Self::FifteenMinutes => "15 minutes",
        }
    }
}

pub open spec fn spec_duration_label(d: SessionDuration) -> Seq<char> {
    match d {
        SessionDuration::TwoMinutes => "2 minutes"@,
        SessionDuration::ThreeMinutes => "3 minutes"@,
        SessionDuration::FiveMinutes => "5 minutes"@,
        SessionDuration::TenMinutes => "10 minutes"@,
        SessionDuration::FifteenMinutes => "15 minutes"@,
    }
}

/// One keystroke: the character the content asked for, the character that
/// was typed, and the time since session start at which it landed.
#[derive(Debug, Clone, Copy, PartialEq, Eq, Structural)]
pub struct CharInput {
    pub expected: char,
    pub typed: char,
    /// Milliseconds since the session started.
    pub timestamp: u64,
    pub is_correct: bool,
}

impl CharInput {
    pub fn new(expected: char, typed: char, timestamp: u64) -> (r: Self)
        ensures
            r.expected == expected,
            r.typed == typed,
            r.timestamp == timestamp,
            r.is_correct == (expected == typed),
    {
        Self { expected, typed, timestamp, is_correct: expected == typed }
    }
}

/// `now - start`, clamped at zero.
pub open spec fn spec_elapsed(start: u64, now: u64) -> u64 {
    if now >= start {
        (now - start) as u64
    } else {
        0
    }
}

/// A typing session in progress.
#[derive(Debug)]
pub struct TypingSession {
    /// The text to type.
    pub content: String,
    /// Position of the next character to type; always `inputs.len()`.
    pub current_index: usize,
    /// Everything typed so far, in order.
    pub inputs: Vec<CharInput>,
    /// Clock reading at the first keystroke, in ms; `None` until then.
    pub start_time: Option<u64>,
    /// Clock reading at completion, in ms; `None` while running.
    pub end_time: Option<u64>,
    /// Time budget of the session, in ms.
    pub duration_limit: u64,
    /// Character count of `content`.
    pub content_buffer_size: usize,
}

impl TypingSession {
    pub open spec fn wf(&self) -> bool {
        &&& self.current_index == self.inputs@.len()
        &&& self.content_buffer_size == self.content@.len()
    }

    /// The session is over once the time budget has elapsed or the content
    /// is exhausted.
    pub open spec fn spec_is_complete(&self, now_ms: u64) -> bool {
        ||| (self.start_time matches Some(start) && spec_elapsed(start, now_ms)
            >= self.duration_limit)
        ||| self.current_index >= self.content@.len()
    }

    /// A fresh session over `content` with the given time budget in ms.
    pub fn new(content: String, duration_ms: u64) -> (r: Self)
        ensures
            r.content@ == content@,
            r.current_index == 0,
            r.inputs@ =~= Seq::<CharInput>::empty(),
            r.start_time is None,
            r.end_time is None,
            r.duration_limit == duration_ms,
            r.wf(),
    {
        let buffer_size = content.as_str().unicode_len();
        Self {
            content,
            current_index: 0,
            inputs: Vec::new(),
            start_time: None,
            end_time: None,
            duration_limit: duration_ms,
            content_buffer_size: buffer_size,
        }
    }

    /// Start the timer at `now_ms` if it is not running yet.
    pub fn start(&mut self, now_ms: u64)
        ensures
            final(self).start_time == (if old(self).start_time is None {
                Some(now_ms)
            } else {
                old(self).start_time
            }),
            *final(self) == (TypingSession { start_time: final(self).start_time, ..*old(self) }),
    {
        if self.start_time.is_none() {
            self.start_time = Some(now_ms);
        }
    }

    /// Record one keystroke at clock reading `now_ms`; returns whether it
    /// matched the expected character.
    ///
    /// Starts the timer on the first keystroke. A keystroke landing on an
    /// already complete session is ignored and reported as incorrect.
    pub fn add_input(&mut self, typed: char, now_ms: u64) -> (correct: bool)
        requires
            old(self).wf(),
        ensures
            final(self).wf(),
            final(self).content@ == old(self).content@,
            final(self).duration_limit == old(self).duration_limit,
            final(self).start_time == (if old(self).start_time is None {
                Some(now_ms)
            } else {
                old(self).start_time
            }),
            ({
                let started = TypingSession { start_time: final(self).start_time, ..*old(self) };
                if started.spec_is_complete(now_ms) {
                    correct == false && *final(self) == started
                } else {
                    let expected = started.content@[started.current_index as int];
                    let input = CharInput {
                        expected,
                        typed,
                        timestamp: spec_elapsed(final(self).start_time->Some_0, now_ms),
                        is_correct: expected == typed,
                    };
                    &&& correct == (expected == typed)
                    &&& final(self).inputs@ == old(self).inputs@.push(input)
                    &&& final(self).current_index == old(self).current_index + 1
                    &&& final(self).end_time == (if final(self).spec_is_complete(now_ms) {
                        Some(now_ms)
                    } else {
                        old(self).end_time
                    })
                }
            }),
    {
        if self.start_time.is_none() {
            self.start_time = Some(now_ms);
        }

        if self.is_complete(now_ms) {
            return false;
        }

        let start = match self.start_time {
            Some(s) => s,
            None => 0,  // unreachable: the timer was just started
        };
        let elapsed = if now_ms >= start {
            now_ms - start
        } else {
            0
        };

        // Not complete, so current_index < content length.
        let expected = self.content.as_str().get_char(self.current_index);
        let input = CharInput::new(expected, typed, elapsed);
        let is_correct = input.is_correct;

        self.inputs.push(input);
        self.current_index = self.current_index + 1;

        if self.is_complete(now_ms) {
            self.end_time = Some(now_ms);
        }

        is_correct
    }

    /// Undo the most recent keystroke; returns whether anything was undone.
    /// Undoing also reopens a session that had just completed.
    pub fn remove_last_input(&mut self) -> (removed: bool)
        requires
            old(self).wf(),
        ensures
            final(self).wf(),
            removed == (old(self).current_index > 0),
            if removed {
                &&& final(self).inputs@ == old(self).inputs@.drop_last()
                &&& final(self).current_index == old(self).current_index - 1
                &&& final(self).end_time is None
                &&& *final(self) == (TypingSession {
                    inputs: final(self).inputs,
                    current_index: final(self).current_index,
                    end_time: None,
                    ..*old(self)
                })
            } else {
                *final(self) == *old(self)
            },
    {
        if self.current_index > 0 && self.inputs.len() > 0 {
            self.inputs.pop();
            self.current_index = self.current_index - 1;
            self.end_time = None;
            true
        } else {
            false
        }
    }

    /// Whether the session is over at clock reading `now_ms`.
    pub fn is_complete(&self, now_ms: u64) -> (r: bool)
        requires
            self.wf(),
        ensures
            r == self.spec_is_complete(now_ms),
    {
        if let Some(start) = self.start_time {
            let elapsed = if now_ms >= start {
                now_ms - start
            } else {
                0
            };
            if elapsed >= self.duration_limit {
                return true;
            }
        }
        self.current_index >= self.content_buffer_size
    }

    /// Elapsed session time in ms at clock reading `now_ms`: up to the
    /// recorded end if the session finished, else up to `now_ms`; zero if
    /// it never started.
    pub fn duration(&self, now_ms: u64) -> (r: u64)
        ensures
            r == match (self.start_time, self.end_time) {
                (Some(start), Some(end)) => spec_elapsed(start, end),
                (Some(start), None) => spec_elapsed(start, now_ms),
                _ => 0u64,
            },
    {
        match (self.start_time, self.end_time) {
            (Some(start), Some(end)) => if end >= start {
                end - start
            } else {
                0
            },
            (Some(start), None) => if now_ms >= start {
                now_ms - start
            } else {
                0
            },
            _ => 0,
        }
    }

    /// Time left in the budget at clock reading `now_ms`; the full budget
    /// if the session has not started.
    pub fn remaining_time(&self, now_ms: u64) -> (r: u64)
        ensures
            r == match self.start_time {
                Some(start) => if spec_elapsed(start, now_ms) >= self.duration_limit {
                    0u64
                } else {
                    (self.duration_limit - spec_elapsed(start, now_ms)) as u64
                },
                None => self.duration_limit,
            },
    {
        match self.start_time {
            Some(start) => {
                let elapsed = if now_ms >= start {
                    now_ms - start
                } else {
                    0
                };
                if elapsed >= self.duration_limit {
                    0
                } else {
                    self.duration_limit - elapsed
                }
            },
            None => self.duration_limit,
        }
    }

    /// Whether the remaining untyped content has shrunk below 200
    /// characters, the cue to generate more.
    pub fn needs_more_content(&self) -> (r: bool)
        requires
            self.wf(),
        ensures
            r == (self.content@.len() - self.current_index < 200
                || self.current_index > self.content@.len()),
    {
        let remaining = if self.content_buffer_size >= self.current_index {
            self.content_buffer_size - self.current_index
        } else {
            0
        };
        remaining < 200
    }

    /// Append freshly generated content, separated by a single space.
    pub fn append_content(&mut self, new_content: String)
        requires
            old(self).wf(),
        ensures
            final(self).wf(),
            final(self).content@ == old(self).content@ + " "@ + new_content@,
            *final(self) == (TypingSession {
                content: final(self).content,
                content_buffer_size: final(self).content_buffer_size,
                ..*old(self)
            }),
    {
        self.content.append(" ");
        self.content.append(new_content.as_str());
        self.content_buffer_size = self.content.as_str().unicode_len();
    }
}

/// The outcome of a completed session.
///
/// `wpm` is in hundredths of a word per minute and `accuracy` in hundredths
/// of a percent; `duration` is in milliseconds.
#[derive(Debug, Clone, PartialEq, Eq, Structural)]
pub struct SessionResult {
    pub wpm: u64,
    pub accuracy: u64,
    pub duration: u64,
    pub char_count: usize,
    pub error_count: usize,
}

impl SessionResult {
    pub fn new(wpm: u64, accuracy: u64, duration: u64, char_count: usize, error_count: usize) -> (r:
        Self)
        ensures
            r == (SessionResult { wpm, accuracy, duration, char_count, error_count }),
    {
        Self { wpm, accuracy, duration, char_count, error_count }
    }
}

} // verus!
