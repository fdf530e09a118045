//! The text-entry buffer shared by the password gate, the decrypt puzzle,
//! the music riddle and the time trial's calculation phase.
//!
//! The buffer holds at most [`MAX_ENTRY`] characters next to an error flag.
//! Typing a character appends it (a no-op when the buffer is full) and
//! backspace removes the last one (a no-op on the empty buffer); both clear
//! the error flag. What a screen does on Enter is its own business.

use vstd::prelude::*;
use vstd::string::StrSliceExecFns;

verus! {

/// The longest entry any text-entry screen keeps.
pub const MAX_ENTRY: usize = 20;

/// The mathematical value of an entry buffer.
pub ghost struct EntryV {
    pub text: Seq<char>,
    pub error: bool,
}

/// How typing the character `c` changes an entry buffer.
pub open spec fn entry_char(v: EntryV, c: char) -> EntryV {
    if v.text.len() < MAX_ENTRY {
        EntryV { text: v.text.push(c), error: false }
    } else {
        v
    }
}

/// How backspace changes an entry buffer.
pub open spec fn entry_backspace(v: EntryV) -> EntryV {
    EntryV {
        text: if v.text.len() == 0 {
            v.text
        } else {
            v.text.drop_last()
        },
        error: false,
    }
}

/// A bounded text buffer with an error flag.
#[derive(Debug, Clone, PartialEq, Eq)]
pub struct Entry {
    text: String,
    error: bool,
}

impl View for Entry {
    type V = EntryV;

    closed spec fn view(&self) -> EntryV {
        EntryV { text: self.text@, error: self.error }
    }
}

impl Entry {
    /// A buffer is well formed when it respects the length bound.
    pub open spec fn wf(self) -> bool {
        self@.text.len() <= MAX_ENTRY
    }

    /// An empty buffer with the error flag down.
    pub fn new() -> (e: Entry)
        ensures
            e@.text == Seq::<char>::empty(),
            !e@.error,
            e.wf(),
    {
        Entry { text: String::new(), error: false }
    }

    /// Append `c` unless the buffer is full; clear the error flag when a
    /// character was appended.
    pub fn push_char(&mut self, c: char)
        requires
            old(self).wf(),
        ensures
            final(self)@ == entry_char(old(self)@, c),
            final(self).wf(),
    {
        if self.text.as_str().unicode_len() < MAX_ENTRY {
            self.text.push(c);
            self.error = false;
        }
    }

    /// Drop the last character if there is one, and clear the error flag.
    pub fn backspace(&mut self)
        requires
            old(self).wf(),
        ensures
            final(self)@ == entry_backspace(old(self)@),
            final(self).wf(),
    {
        self.text.pop();
        self.error = false;
    }

    /// Raise the error flag, keeping the text.
    pub fn mark_error(&mut self)
        ensures
            final(self)@ == (EntryV { text: old(self)@.text, error: true }),
            old(self).wf() ==> final(self).wf(),
    {
        self.error = true;
    }

    /// The buffered text.
    pub fn text(&self) -> (t: &String)
        ensures
            t@ == self@.text,
    {
        &self.text
    }

    /// Whether the error flag is up.
    pub fn error(&self) -> (b: bool)
        ensures
            b == self@.error,
    {
        self.error
    }
}

/// The buffer after a whole sequence of characters and backspaces, each step
/// either typing a character (`Some(c)`) or pressing backspace (`None`).
pub open spec fn entry_apply(v: EntryV, steps: Seq<Option<char>>) -> EntryV
    decreases steps.len(),
{
    if steps.len() == 0 {
        v
    } else {
        let rest = entry_apply(v, steps.drop_last());
        match steps.last() {
            Some(c) => entry_char(rest, c),
            None => entry_backspace(rest),
        }
    }
}

/// However a buffer is edited, its length never exceeds [`MAX_ENTRY`].
pub proof fn lemma_entry_len_bounded(v: EntryV, steps: Seq<Option<char>>)
    requires
        v.text.len() <= MAX_ENTRY,
    ensures
        entry_apply(v, steps).text.len() <= MAX_ENTRY,
    decreases steps.len(),
{
    if steps.len() > 0 {
        lemma_entry_len_bounded(v, steps.drop_last());
    }
}

/// Backspace on an empty buffer leaves the text unchanged.
pub proof fn lemma_backspace_empty_noop(v: EntryV)
    requires
        v.text.len() == 0,
    ensures
        entry_backspace(v).text == v.text,
{
}

/// Appending (when there is room) and removing (when there is something to
/// remove) both clear the error flag; so do their no-op edge cases, since
/// the screens treat any edit as a fresh attempt.
pub proof fn lemma_edit_clears_error(v: EntryV, c: char)
    ensures
        v.text.len() < MAX_ENTRY ==> !entry_char(v, c).error,
        !entry_backspace(v).error,
{
}

} // verus!
