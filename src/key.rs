//! The key presses that a typing test reacts to.

use vstd::prelude::*;

verus! {

/// The logical key of a press, reduced to what a typing test reads.
#[derive(Clone, Copy, Debug, PartialEq, Eq, Structural)]
pub enum KeyCode {
    /// A printable character (the space bar gives `Char(' ')`).
    Char(char),
    /// The enter key.
    Enter,
    /// The backspace key.
    Backspace,
    /// Any other key; it has no effect on a test.
    Other,
}

/// One key press: its logical key and whether the control modifier was held.
#[derive(Clone, Copy, Debug, PartialEq, Eq, Structural)]
pub struct KeyInput {
    pub code: KeyCode,
    pub control: bool,
}

/// The key that terminals send for control-backspace: it deletes the whole word.
pub const WORD_DELETE_CHAR: char = 'h';

impl KeyInput {
    /// A press of `code` without the control modifier.
    pub fn new(code: KeyCode) -> (k: KeyInput)
        ensures
            k == (KeyInput { code, control: false }),
    {
        KeyInput { code, control: false }
    }

    /// A press of `code` with the control modifier held.
    pub fn with_control(code: KeyCode) -> (k: KeyInput)
        ensures
            k == (KeyInput { code, control: true }),
    {
        KeyInput { code, control: true }
    }

    /// Whether this press deletes the whole word typed so far.
    pub open spec fn spec_is_word_delete(self) -> bool {
        self.control && self.code == KeyCode::Char(WORD_DELETE_CHAR)
    }

    /// Whether this press deletes the whole word typed so far.
    pub fn is_word_delete(&self) -> (r: bool)
        ensures
            r == self.spec_is_word_delete(),
    {
        self.control && self.code == KeyCode::Char(WORD_DELETE_CHAR)
    }
}

} // verus!
