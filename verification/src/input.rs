//! The model of a key press that the screens consume.
//!
//! The embedding program translates each terminal key-press event into a
//! [`KeyEvent`] before handing it to the library; releases and repeats are
//! not forwarded. Only the keys that some screen reads are distinguished,
//! every other key is [`KeyCode::Other`].

use vstd::prelude::*;

verus! {

/// Which key was pressed.
#[derive(Debug, Clone, Copy, PartialEq, Eq, Structural)]
pub enum KeyCode {
    /// A printable character, the space bar included.
    Char(char),
    Backspace,
    Enter,
    Left,
    Right,
    Up,
    Down,
    /// Any key no screen cares about.
    Other,
}

/// One key press.
#[derive(Debug, Clone, Copy, PartialEq, Eq, Structural)]
pub struct KeyEvent {
    pub code: KeyCode,
    /// True when Alt, and no other modifier, was held.
    pub alt: bool,
}

impl KeyEvent {
    /// A plain press of `code` with no modifier held.
    pub fn plain(code: KeyCode) -> (k: KeyEvent)
        ensures
            k == (KeyEvent { code, alt: false }),
    {
        KeyEvent { code, alt: false }
    }
}

} // verus!
