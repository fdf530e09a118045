use escape_tabs::app::{build_app, App, FsEvent, Screen};
use escape_tabs::email::Email;
use escape_tabs::input::{KeyCode, KeyEvent};

fn chars(s: &str) -> Vec<char> {
    s.chars().collect()
}

fn one_mail() -> Vec<Email> {
    vec![Email {
        from: chars("a"),
        to: chars("b"),
        cc: chars("c"),
        date: chars("2024"),
        subject: chars("s"),
        body: Vec::new(),
    }]
}

fn key(code: KeyCode) -> KeyEvent {
    KeyEvent::plain(code)
}

fn press(app: &mut App, code: KeyCode) {
    assert!(!app.handle_key(key(code)));
}

fn type_str(app: &mut App, s: &str) {
    for c in s.chars() {
        press(app, KeyCode::Char(c));
    }
}

#[test]
fn standard_layout_has_the_seven_tabs() {
    let app = build_app("pw".to_string(), one_mail(), false, "tune.mp3".to_string()).unwrap();
    assert_eq!(app.tab_count(), 7);
    assert_eq!(app.current_index(), 0);
    assert!(matches!(app.screen(0), Screen::Password(_, _)));
    assert!(matches!(app.screen(1), Screen::Email(_, _)));
    assert!(matches!(app.screen(2), Screen::Decrypt(_, _)));
    assert!(matches!(app.screen(3), Screen::Music(_, _)));
    assert!(matches!(app.screen(4), Screen::SuccessfulInstall(_, _)));
    assert!(matches!(app.screen(5), Screen::TimeTrial(_, _)));
    assert!(matches!(app.screen(6), Screen::Victory(_, _)));
    // Outside the decoy mode the reserved last slot starts plugged.
    assert_eq!(app.plugged_count(), 1);
}

#[test]
fn decoy_layout_substitutes_failed_installs() {
    let app = build_app("pw".to_string(), one_mail(), true, "tune.mp3".to_string()).unwrap();
    for i in 2..6 {
        assert!(matches!(app.screen(i), Screen::FailedInstall(_, _)));
    }
    assert_eq!(app.plugged_count(), 0);
}

#[test]
fn empty_password_skips_the_gate() {
    let app = build_app(String::new(), one_mail(), false, "tune.mp3".to_string()).unwrap();
    assert_eq!(app.current_index(), 1);
}

#[test]
fn no_emails_is_a_load_error() {
    assert!(build_app("pw".to_string(), Vec::new(), false, "tune.mp3".to_string()).is_err());
}

#[test]
fn quit_chord_ends_the_program() {
    let mut app = build_app("pw".to_string(), one_mail(), false, "tune.mp3".to_string()).unwrap();
    assert!(!app.handle_key(KeyEvent { code: KeyCode::Char('q'), alt: false }));
    assert!(app.handle_key(KeyEvent { code: KeyCode::Char('q'), alt: true }));
}

#[test]
fn solved_password_leads_to_the_email_reader() {
    let mut app = build_app("pw".to_string(), one_mail(), false, "tune.mp3".to_string()).unwrap();
    type_str(&mut app, "pw");
    press(&mut app, KeyCode::Enter);
    assert_eq!(app.current_index(), 1);
}

#[test]
fn rename_event_forces_a_usb_tab() {
    let mut app = build_app(String::new(), one_mail(), false, "tune.mp3".to_string()).unwrap();
    app.on_fs_event(&FsEvent::RenamedTo("/dev/disk/by-label/3-ESCAPE".to_string()));
    assert_eq!(app.current_index(), 4);
}

#[test]
fn rename_event_is_ignored_on_the_password_gate() {
    let mut app = build_app("pw".to_string(), one_mail(), false, "tune.mp3".to_string()).unwrap();
    app.on_fs_event(&FsEvent::RenamedTo("/dev/disk/by-label/3-ESCAPE".to_string()));
    assert_eq!(app.current_index(), 0);
}

#[test]
fn rename_event_without_the_suffix_is_ignored() {
    let mut app = build_app(String::new(), one_mail(), false, "tune.mp3".to_string()).unwrap();
    app.on_fs_event(&FsEvent::RenamedTo("/dev/disk/by-label/3-OTHER".to_string()));
    assert_eq!(app.current_index(), 1);
}

#[test]
fn removal_event_kicks_back_to_the_email_reader() {
    let mut app = build_app(String::new(), one_mail(), false, "tune.mp3".to_string()).unwrap();
    app.on_fs_event(&FsEvent::RenamedTo("/dev/disk/by-label/2-ESCAPE".to_string()));
    assert_eq!(app.current_index(), 3);
    app.on_fs_event(&FsEvent::Removed("/dev/disk/by-label/2-ESCAPE".to_string()));
    assert_eq!(app.current_index(), 1);
}

#[test]
fn removal_event_keeps_the_password_gate() {
    let mut app = build_app("pw".to_string(), one_mail(), false, "tune.mp3".to_string()).unwrap();
    app.on_fs_event(&FsEvent::Removed("/dev/disk/by-label/2-ESCAPE".to_string()));
    assert_eq!(app.current_index(), 0);
}

#[test]
fn music_request_is_collected_from_the_music_tab() {
    let mut app = build_app(String::new(), one_mail(), false, "tune.mp3".to_string()).unwrap();
    assert_eq!(app.take_music_request(), None);
    app.on_fs_event(&FsEvent::RenamedTo("/dev/disk/by-label/2-ESCAPE".to_string()));
    assert_eq!(app.current_index(), 3);
    press(&mut app, KeyCode::Char(' '));
    assert_eq!(app.take_music_request(), Some("tune.mp3".to_string()));
    assert_eq!(app.take_music_request(), None);
}

#[test]
fn winning_every_gate_redirects_to_the_victory_tab() {
    let mut app = build_app(String::new(), one_mail(), false, "tune.mp3".to_string()).unwrap();
    // Decrypt puzzle.
    app.on_fs_event(&FsEvent::RenamedTo("/dev/disk/by-label/1-ESCAPE".to_string()));
    assert_eq!(app.current_index(), 2);
    type_str(&mut app, "ALMA.PAIX");
    press(&mut app, KeyCode::Enter);
    assert_eq!(app.current_index(), 1);
    assert_eq!(app.plugged_count(), 2);
    // Music riddle.
    app.on_fs_event(&FsEvent::RenamedTo("/dev/disk/by-label/2-ESCAPE".to_string()));
    type_str(&mut app, "2.5");
    press(&mut app, KeyCode::Enter);
    assert_eq!(app.current_index(), 1);
    // Install screen.
    app.on_fs_event(&FsEvent::RenamedTo("/dev/disk/by-label/3-ESCAPE".to_string()));
    press(&mut app, KeyCode::Char(' '));
    assert_eq!(app.current_index(), 1);
    assert_eq!(app.plugged_count(), 4);
    // Time trial: six answers, then drag every connector onto its target.
    app.on_fs_event(&FsEvent::RenamedTo("/dev/disk/by-label/4-ESCAPE".to_string()));
    for answer in ["2", "41", "16", "22", "4", "40"] {
        type_str(&mut app, answer);
        press(&mut app, KeyCode::Enter);
    }
    let targets = [(76, 15), (61, 15), (18, 15), (40, 15)];
    let starts = [(11, 2), (28, 2), (54, 2), (74, 2)];
    let mut cursor = (10, 10);
    for i in 0..4 {
        walk(&mut app, &mut cursor, starts[i]);
        press(&mut app, KeyCode::Enter);
        walk(&mut app, &mut cursor, targets[i]);
        press(&mut app, KeyCode::Enter);
    }
    // Releasing the last connector on its target solved the puzzle: with
    // all five slots plugged, the jump to the email reader lands on the
    // victory tab instead.
    assert_eq!(app.plugged_count(), 5);
    assert_eq!(app.current_index(), 6);
    assert!(matches!(app.screen(6), Screen::Victory(_, _)));
}

fn walk(app: &mut App, cursor: &mut (usize, usize), to: (usize, usize)) {
    while cursor.0 < to.0 {
        press(app, KeyCode::Right);
        cursor.0 += 1;
    }
    while cursor.0 > to.0 {
        press(app, KeyCode::Left);
        cursor.0 -= 1;
    }
    while cursor.1 < to.1 {
        press(app, KeyCode::Down);
        cursor.1 += 1;
    }
    while cursor.1 > to.1 {
        press(app, KeyCode::Up);
        cursor.1 -= 1;
    }
}
