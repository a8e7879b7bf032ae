//! Keystroke-by-keystroke progress tracking for a typing test.
//!
//! A [`test::Test`] owns a fixed sequence of target words and interprets one
//! key press at a time: it grows or shrinks the typed progress of the active
//! word, records a judged event for every keystroke it applies, moves between
//! words, and detects when the whole sequence has been typed.

pub mod key;
pub mod laws;
