//! The music riddle tab. The space bar asks the embedding program to play a
//! fixed audio asset; the answer to the riddle is typed like on the other
//! text-entry screens. Playback itself happens outside the library: the
//! screen only records that it was requested, and the embedding program
//! collects the request after each key press.

use vstd::prelude::*;
use crate::entry::{Entry, EntryV, entry_backspace, entry_char};
use crate::input::{KeyCode, KeyEvent};
use crate::password::EMAIL_TAB;
use crate::text::str_eq;

verus! {

/// The mathematical value of the music riddle state.
pub ghost struct MusicV {
    pub entry: EntryV,
    /// Whether a playback request awaits collection by the embedding
    /// program.
    pub pending_play: bool,
}

/// Mutable state of the music riddle.
#[derive(Debug, Clone, PartialEq, Eq)]
pub struct MusicPlayerState {
    entry: Entry,
    pending_play: bool,
}

impl View for MusicPlayerState {
    type V = MusicV;

    closed spec fn view(&self) -> MusicV {
        MusicV { entry: self.entry@, pending_play: self.pending_play }
    }
}

impl MusicPlayerState {
    pub open spec fn wf(self) -> bool {
        self@.entry.text.len() <= crate::entry::MAX_ENTRY
    }

    /// An empty entry, no error, nothing pending.
    pub fn new() -> (s: Self)
        ensures
            s@.entry.text == Seq::<char>::empty(),
            !s@.entry.error,
            !s@.pending_play,
            s.wf(),
    {
        MusicPlayerState { entry: Entry::new(), pending_play: false }
    }

    /// The typed text, for display.
    pub fn text(&self) -> (t: &String)
        ensures
            t@ == self@.entry.text,
    {
        self.entry.text()
    }

    /// Whether the last attempt failed.
    pub fn error(&self) -> (b: bool)
        ensures
            b == self@.entry.error,
    {
        self.entry.error()
    }

    /// Collect the pending playback request, if any. The embedding program
    /// calls this after dispatching a key press and starts the audio when it
    /// returns true.
    pub fn take_play_request(&mut self) -> (played: bool)
        ensures
            played == old(self)@.pending_play,
            final(self)@.entry == old(self)@.entry,
            !final(self)@.pending_play,
            old(self).wf() ==> final(self).wf(),
    {
        let played = self.pending_play;
        self.pending_play = false;
        played
    }
}

/// Immutable configuration of the music riddle: the path of the audio asset
/// to play, kept as plain text for the embedding program.
#[derive(Debug, Clone, PartialEq, Eq)]
pub struct MusicPlayer {
    file: String,
}

impl View for MusicPlayer {
    type V = Seq<char>;

    closed spec fn view(&self) -> Seq<char> {
        self.file@
    }
}

/// The two spellings of the riddle's answer that are both accepted.
pub open spec fn music_code_long() -> Seq<char> {
    "2.5."@
}

pub open spec fn music_code_short() -> Seq<char> {
    "2.5"@
}

/// How one key press changes the music riddle. The space bar is taken
/// before ordinary characters: it requests playback and leaves the entry
/// alone.
pub open spec fn music_step(v: MusicV, key: KeyEvent) -> (MusicV, Option<usize>) {
    match key.code {
        KeyCode::Char(c) => if c == ' ' {
            (MusicV { entry: v.entry, pending_play: true }, None)
        } else {
            (MusicV { entry: entry_char(v.entry, c), ..v }, None)
        },
        KeyCode::Backspace => (MusicV { entry: entry_backspace(v.entry), ..v }, None),
        KeyCode::Enter => if v.entry.text == music_code_long() || v.entry.text
            == music_code_short() {
            (v, Some(EMAIL_TAB))
        } else {
            (MusicV { entry: EntryV { text: v.entry.text, error: true }, ..v }, None)
        },
        _ => (v, None),
    }
}

/// The riddle state after a whole sequence of key presses, the jumps
/// ignored.
pub open spec fn apply_music(v: MusicV, keys: Seq<KeyEvent>) -> MusicV
    decreases keys.len(),
{
    if keys.len() == 0 {
        v
    } else {
        music_step(apply_music(v, keys.drop_last()), keys.last()).0
    }
}

/// However the riddle is driven, the buffer never exceeds the entry bound.
pub proof fn lemma_music_entry_bounded(v: MusicV, keys: Seq<KeyEvent>)
    requires
        v.entry.text.len() <= crate::entry::MAX_ENTRY,
    ensures
        apply_music(v, keys).entry.text.len() <= crate::entry::MAX_ENTRY,
    decreases keys.len(),
{
    if keys.len() > 0 {
        lemma_music_entry_bounded(v, keys.drop_last());
    }
}

impl MusicPlayer {
    /// A riddle screen that plays the asset at `file`.
    pub fn new(file: String) -> (m: MusicPlayer)
        ensures
            m@ == file@,
    {
        MusicPlayer { file }
    }

    /// The path of the audio asset, for the embedding program.
    pub fn file(&self) -> (f: &String)
        ensures
            f@ == self@,
    {
        &self.file
    }

    /// Feed one key press to the riddle.
    pub fn handle_input(&self, key: KeyEvent, state: &mut MusicPlayerState) -> (nav: Option<usize>)
        requires
            old(state).wf(),
        ensures
            (final(state)@, nav) == music_step(old(state)@, key),
            final(state).wf(),
    {
        match key.code {
            KeyCode::Char(c) => {
                if c == ' ' {
                    state.pending_play = true;
                } else {
                    state.entry.push_char(c);
                }
                None
            },
            KeyCode::Backspace => {
                state.entry.backspace();
                None
            },
            KeyCode::Enter => {
                if str_eq(state.entry.text().as_str(), "2.5.") || str_eq(
                    state.entry.text().as_str(),
                    "2.5",
                ) {
                    Some(EMAIL_TAB)
                } else {
                    state.entry.mark_error();
                    None
                }
            },
            _ => None,
        }
    }
}

} // verus!
