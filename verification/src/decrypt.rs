//! The decrypt puzzle tab. A scrambled word is shown; the player types the
//! clear text, which is compared against a fixed code word.

use vstd::prelude::*;
use crate::entry::{Entry, EntryV, entry_backspace, entry_char};
use crate::input::{KeyCode, KeyEvent};
use crate::password::EMAIL_TAB;
use crate::text::str_eq;

verus! {

/// The clear text the puzzle expects.
pub open spec fn decrypt_code() -> Seq<char> {
    "ALMA.PAIX"@
}

/// Mutable state of the decrypt puzzle: the entry buffer.
#[derive(Debug, Clone, PartialEq, Eq)]
pub struct DecryptState {
    entry: Entry,
}

impl View for DecryptState {
    type V = EntryV;

    closed spec fn view(&self) -> EntryV {
        self.entry@
    }
}

impl DecryptState {
    pub open spec fn wf(self) -> bool {
        self@.text.len() <= crate::entry::MAX_ENTRY
    }

    /// An empty entry with the error flag down.
    pub fn new() -> (s: Self)
        ensures
            s@.text == Seq::<char>::empty(),
            !s@.error,
            s.wf(),
    {
        DecryptState { entry: Entry::new() }
    }

    /// The typed text, for display.
    pub fn text(&self) -> (t: &String)
        ensures
            t@ == self@.text,
    {
        self.entry.text()
    }

    /// Whether the last attempt failed.
    pub fn error(&self) -> (b: bool)
        ensures
            b == self@.error,
    {
        self.entry.error()
    }
}

/// The decrypt puzzle has no per-session configuration.
#[derive(Debug, Clone, PartialEq, Eq)]
pub struct Decrypt;

/// How one key press changes the decrypt puzzle.
pub open spec fn decrypt_step(v: EntryV, key: KeyEvent) -> (EntryV, Option<usize>) {
    match key.code {
        KeyCode::Char(c) => (entry_char(v, c), None),
        KeyCode::Backspace => (entry_backspace(v), None),
        KeyCode::Enter => if v.text == decrypt_code() {
            (v, Some(EMAIL_TAB))
        } else {
            (EntryV { text: v.text, error: true }, None)
        },
        _ => (v, None),
    }
}

/// The entry state after a whole sequence of key presses, the jumps
/// ignored.
pub open spec fn apply_decrypt(v: EntryV, keys: Seq<KeyEvent>) -> EntryV
    decreases keys.len(),
{
    if keys.len() == 0 {
        v
    } else {
        decrypt_step(apply_decrypt(v, keys.drop_last()), keys.last()).0
    }
}

/// However the puzzle is driven, the buffer never exceeds the entry bound.
pub proof fn lemma_decrypt_entry_bounded(v: EntryV, keys: Seq<KeyEvent>)
    requires
        v.text.len() <= crate::entry::MAX_ENTRY,
    ensures
        apply_decrypt(v, keys).text.len() <= crate::entry::MAX_ENTRY,
    decreases keys.len(),
{
    if keys.len() > 0 {
        lemma_decrypt_entry_bounded(v, keys.drop_last());
    }
}

impl Decrypt {
    pub fn new() -> (d: Decrypt)
        ensures
            d == Decrypt,
    {
        Decrypt
    }

    /// Feed one key press to the puzzle.
    pub fn handle_input(&self, key: KeyEvent, state: &mut DecryptState) -> (nav: Option<usize>)
        requires
            old(state).wf(),
        ensures
            (final(state)@, nav) == decrypt_step(old(state)@, key),
            final(state).wf(),
    {
        match key.code {
            KeyCode::Char(c) => {
                state.entry.push_char(c);
                None
            },
            KeyCode::Backspace => {
                state.entry.backspace();
                None
            },
            KeyCode::Enter => {
                if str_eq(state.entry.text().as_str(), "ALMA.PAIX") {
                    Some(EMAIL_TAB)
                } else {
                    state.entry.mark_error();
                    None
                }
            },
            _ => None,
        }
    }
}

} // verus!
