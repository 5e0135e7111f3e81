//! Adaptive analytics core for a terminal typing tutor.
//!
//! The library turns raw per-keystroke session logs into aggregated
//! per-character and per-pair performance statistics, classifies each
//! tracked character into a mastery level, surfaces weaknesses, schedules
//! re-practice, recommends the next lesson, and generates practice text
//! biased toward weak areas.

pub mod adaptive;
pub mod adaptive_generator;
pub mod analytics;
pub mod analyzer;
pub mod assoc;
pub mod code_generator;
pub mod code_symbols;
pub mod common_word_generator;
pub mod custom;
pub mod finger_generator;
pub mod generator;
pub mod keyboard;
pub mod lesson;
pub mod recommend;
pub mod scheduler;
pub mod scoring;
pub mod stats;
pub mod types;
pub mod word_lists;
mod util;

pub use adaptive::WeaknessDetector;
pub use adaptive_generator::AdaptiveLessonGenerator;
pub use analytics::{BigramStats, CharPair, KeyStats, MasteryLevel};
pub use analyzer::{KeyPerformance, SessionAnalysis, SessionAnalyzer};
pub use code_generator::CodeSymbolGenerator;
pub use common_word_generator::CommonWordGenerator;
pub use code_symbols::{CodeSnippet, ProgrammingLanguage, SymbolCategory};
pub use custom::{CustomLessonMetadata, ParseError, ParsedMarkdown};
pub use generator::ContentGenerator;
pub use keyboard::{AzertyLayout, Finger, Hand, Key, KeyboardConfig, KeyboardRow, RowType};
pub use lesson::{
    BigramType, FingerPairType, KeyPairGroupDef, KeyPairLessonDef, Language, Lesson, LessonType,
    ShiftedCharMap,
};
pub use recommend::{NextLesson, Recommendation};
pub use scheduler::{needs_practice, next_interval};
pub use scoring::{calculate_accuracy, calculate_results, calculate_wpm};
pub use stats::{
    should_show_adaptive_mode, AdaptiveAnalytics, SessionAnalytics, SessionRecord, Stats,
};
pub use types::{CharInput, SessionDuration, SessionResult, TypingSession};
