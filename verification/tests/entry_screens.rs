use escape_tabs::decrypt::{Decrypt, DecryptState};
use escape_tabs::input::{KeyCode, KeyEvent};
use escape_tabs::music::{MusicPlayer, MusicPlayerState};
use escape_tabs::password::{PasswordEntry, PasswordEntryState};

fn key(code: KeyCode) -> KeyEvent {
    KeyEvent::plain(code)
}

fn type_str(gate: &PasswordEntry, state: &mut PasswordEntryState, s: &str) {
    for c in s.chars() {
        assert_eq!(gate.handle_input(key(KeyCode::Char(c)), state), None);
    }
}

#[test]
fn password_match_jumps_to_email_reader() {
    let gate = PasswordEntry::new("hunter".to_string());
    let mut state = PasswordEntryState::new();
    type_str(&gate, &mut state, "hunter");
    assert_eq!(gate.handle_input(key(KeyCode::Enter), &mut state), Some(1));
    assert!(!state.error());
}

#[test]
fn password_mismatch_sets_error_and_stays() {
    let gate = PasswordEntry::new("hunter".to_string());
    let mut state = PasswordEntryState::new();
    type_str(&gate, &mut state, "wrong");
    assert_eq!(gate.handle_input(key(KeyCode::Enter), &mut state), None);
    assert!(state.error());
    assert_eq!(state.text().as_str(), "wrong");
}

#[test]
fn password_buffer_never_exceeds_twenty() {
    let gate = PasswordEntry::new("pw".to_string());
    let mut state = PasswordEntryState::new();
    for _ in 0..30 {
        gate.handle_input(key(KeyCode::Char('x')), &mut state);
    }
    assert_eq!(state.text().chars().count(), 20);
}

#[test]
fn password_backspace_on_empty_is_noop_on_text() {
    let gate = PasswordEntry::new("pw".to_string());
    let mut state = PasswordEntryState::new();
    assert_eq!(gate.handle_input(key(KeyCode::Enter), &mut state), None);
    assert!(state.error());
    assert_eq!(gate.handle_input(key(KeyCode::Backspace), &mut state), None);
    assert_eq!(state.text().as_str(), "");
    assert!(!state.error());
}

#[test]
fn password_typing_clears_error() {
    let gate = PasswordEntry::new("pw".to_string());
    let mut state = PasswordEntryState::new();
    type_str(&gate, &mut state, "no");
    gate.handle_input(key(KeyCode::Enter), &mut state);
    assert!(state.error());
    gate.handle_input(key(KeyCode::Char('a')), &mut state);
    assert!(!state.error());
}

#[test]
fn password_char_on_full_buffer_keeps_error() {
    let gate = PasswordEntry::new("pw".to_string());
    let mut state = PasswordEntryState::new();
    type_str(&gate, &mut state, "aaaaaaaaaaaaaaaaaaaa");
    gate.handle_input(key(KeyCode::Enter), &mut state);
    assert!(state.error());
    gate.handle_input(key(KeyCode::Char('b')), &mut state);
    assert!(state.error());
    assert_eq!(state.text().chars().count(), 20);
}

#[test]
fn decrypt_code_word_jumps_to_email_reader() {
    let puzzle = Decrypt::new();
    let mut state = DecryptState::new();
    for c in "ALMA.PAIX".chars() {
        puzzle.handle_input(key(KeyCode::Char(c)), &mut state);
    }
    assert_eq!(puzzle.handle_input(key(KeyCode::Enter), &mut state), Some(1));
}

#[test]
fn decrypt_wrong_word_sets_error() {
    let puzzle = Decrypt::new();
    let mut state = DecryptState::new();
    for c in "alma.paix".chars() {
        puzzle.handle_input(key(KeyCode::Char(c)), &mut state);
    }
    assert_eq!(puzzle.handle_input(key(KeyCode::Enter), &mut state), None);
    assert!(state.error());
}

#[test]
fn music_accepts_both_spellings() {
    let player = MusicPlayer::new("tune.mp3".to_string());
    for answer in ["2.5.", "2.5"] {
        let mut state = MusicPlayerState::new();
        for c in answer.chars() {
            player.handle_input(key(KeyCode::Char(c)), &mut state);
        }
        assert_eq!(player.handle_input(key(KeyCode::Enter), &mut state), Some(1));
    }
}

#[test]
fn music_wrong_answer_sets_error() {
    let player = MusicPlayer::new("tune.mp3".to_string());
    let mut state = MusicPlayerState::new();
    for c in "2.55".chars() {
        player.handle_input(key(KeyCode::Char(c)), &mut state);
    }
    assert_eq!(player.handle_input(key(KeyCode::Enter), &mut state), None);
    assert!(state.error());
}

#[test]
fn music_space_requests_playback_without_typing() {
    let player = MusicPlayer::new("tune.mp3".to_string());
    let mut state = MusicPlayerState::new();
    player.handle_input(key(KeyCode::Char('2')), &mut state);
    assert_eq!(player.handle_input(key(KeyCode::Char(' ')), &mut state), None);
    assert_eq!(state.text().as_str(), "2");
    assert!(state.take_play_request());
    assert!(!state.take_play_request());
}
