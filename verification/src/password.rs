//! The password gate, the first tab. The player types the password; on a
//! match the screen requests a jump to the email reader, on a mismatch it
//! raises the error flag.

use vstd::prelude::*;
use crate::entry::{Entry, EntryV, entry_backspace, entry_char};
use crate::input::{KeyCode, KeyEvent};
use crate::text::str_eq;

verus! {

/// The tab index of the email reader, where every solved gate leads.
pub const EMAIL_TAB: usize = 1;

/// Mutable state of the password gate: the entry buffer.
#[derive(Debug, Clone, PartialEq, Eq)]
pub struct PasswordEntryState {
    entry: Entry,
}

impl View for PasswordEntryState {
    type V = EntryV;

    closed spec fn view(&self) -> EntryV {
        self.entry@
    }
}

impl PasswordEntryState {
    pub open spec fn wf(self) -> bool {
        self@.text.len() <= crate::entry::MAX_ENTRY
    }

    /// An empty entry with the error flag down.
    pub fn new() -> (s: Self)
        ensures
            s@.text == Seq::<char>::empty(),
            !s@.error,
            s.wf(),
    {
        PasswordEntryState { entry: Entry::new() }
    }

    /// The typed text, for display.
    pub fn text(&self) -> (t: &String)
        ensures
            t@ == self@.text,
    {
        self.entry.text()
    }

    /// Whether the last attempt failed.
    pub fn error(&self) -> (b: bool)
        ensures
            b == self@.error,
    {
        self.entry.error()
    }
}

/// Immutable configuration of the password gate: the expected password.
#[derive(Debug, Clone, PartialEq, Eq)]
pub struct PasswordEntry {
    password: String,
}

impl View for PasswordEntry {
    type V = Seq<char>;

    closed spec fn view(&self) -> Seq<char> {
        self.password@
    }
}

/// How one key press changes the password gate: the new entry state and the
/// requested tab jump, if any.
pub open spec fn password_step(v: EntryV, key: KeyEvent, password: Seq<char>) -> (EntryV, Option<
    usize,
>) {
    match key.code {
        KeyCode::Char(c) => (entry_char(v, c), None),
        KeyCode::Backspace => (entry_backspace(v), None),
        KeyCode::Enter => if v.text == password {
            (v, Some(EMAIL_TAB))
        } else {
            (EntryV { text: v.text, error: true }, None)
        },
        _ => (v, None),
    }
}

/// The entry state after a whole sequence of key presses, the jumps
/// ignored.
pub open spec fn apply_password(v: EntryV, password: Seq<char>, keys: Seq<KeyEvent>) -> EntryV
    decreases keys.len(),
{
    if keys.len() == 0 {
        v
    } else {
        password_step(apply_password(v, password, keys.drop_last()), keys.last(), password).0
    }
}

/// However this screen is driven, the buffer never exceeds the entry bound.
pub proof fn lemma_password_entry_bounded(v: EntryV, password: Seq<char>, keys: Seq<KeyEvent>)
    requires
        v.text.len() <= crate::entry::MAX_ENTRY,
    ensures
        apply_password(v, password, keys).text.len() <= crate::entry::MAX_ENTRY,
    decreases keys.len(),
{
    if keys.len() > 0 {
        lemma_password_entry_bounded(v, password, keys.drop_last());
    }
}

impl PasswordEntry {
    /// A gate expecting exactly `password`.
    pub fn new(password: String) -> (p: PasswordEntry)
        ensures
            p@ == password@,
    {
        PasswordEntry { password }
    }

    /// Feed one key press to the screen.
    pub fn handle_input(&self, key: KeyEvent, state: &mut PasswordEntryState) -> (nav: Option<
        usize,
    >)
        requires
            old(state).wf(),
        ensures
            (final(state)@, nav) == password_step(old(state)@, key, self@),
            final(state).wf(),
    {
        match key.code {
            KeyCode::Char(c) => {
                state.entry.push_char(c);
                None
            },
            KeyCode::Backspace => {
                state.entry.backspace();
                None
            },
            KeyCode::Enter => {
                if str_eq(state.entry.text().as_str(), self.password.as_str()) {
                    Some(EMAIL_TAB)
                } else {
                    state.entry.mark_error();
                    None
                }
            },
            _ => None,
        }
    }
}

} // verus!
