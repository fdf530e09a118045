use escape_tabs::email::{Email, EmailParseError, EmailProgram, EmailProgramState, MailboxError};
use escape_tabs::input::{KeyCode, KeyEvent};

fn chars(s: &str) -> Vec<char> {
    s.chars().collect()
}

fn text_of(v: &[char]) -> String {
    v.iter().collect()
}

fn mail_with_date(date: &str) -> Email {
    Email {
        from: chars("a"),
        to: chars("b"),
        cc: chars("c"),
        date: chars(date),
        subject: chars("s"),
        body: Vec::new(),
    }
}

#[test]
fn parse_reads_headers_in_order() {
    let record = "from: alice@example.net\nto:bob@example.net\ncc: carol\ndate: 2024-03-01\nsubject:  hello there \n\nbody line\n";
    let mail = Email::parse(record).unwrap();
    assert_eq!(text_of(&mail.from), "alice@example.net");
    assert_eq!(text_of(&mail.to), "bob@example.net");
    // The cc value keeps its blanks, like the reader shows it.
    assert_eq!(text_of(&mail.cc), " carol");
    assert_eq!(text_of(&mail.date), "2024-03-01");
    assert_eq!(text_of(&mail.subject), "hello there");
    assert_eq!(mail.body.len(), 1);
}

#[test]
fn parse_scans_markup_runs() {
    let record =
        "from: a\nto: b\ncc: c\ndate: d\nsubject: s\n\nplain *bold* _it_ ~col~ end\n";
    let mail = Email::parse(record).unwrap();
    let runs = &mail.body[0];
    let texts: Vec<String> = runs.iter().map(|r| text_of(&r.text)).collect();
    assert_eq!(texts, vec!["plain ", "bold", " ", "it", " ", "col", " end"]);
    assert!(!runs[0].style.bold && !runs[0].style.italic && !runs[0].style.colored);
    assert!(runs[1].style.bold);
    assert!(!runs[2].style.bold);
    assert!(runs[3].style.italic);
    assert!(runs[5].style.colored);
    assert!(!runs[6].style.bold && !runs[6].style.italic && !runs[6].style.colored);
}

#[test]
fn markup_round_trip_with_each_marker_once() {
    // One line using every marker exactly once, plus an escaped delimiter:
    // the run texts concatenate back to the line with the markup stripped
    // and the escaped star kept literally.
    let line = "a*b*c_d_e~f~g\\*h";
    let record = format!("from: a\nto: b\ncc: c\ndate: d\nsubject: s\n\n{}\n", line);
    let mail = Email::parse(&record).unwrap();
    let joined: String = mail.body[0].iter().flat_map(|r| r.text.iter()).collect();
    assert_eq!(joined, "abcdefg*h");
}

#[test]
fn style_state_resets_on_each_line() {
    let record = "from: a\nto: b\ncc: c\ndate: d\nsubject: s\n\n*open\nnext\n";
    let mail = Email::parse(record).unwrap();
    assert!(mail.body[0][1].style.bold);
    assert!(!mail.body[1][0].style.bold);
}

#[test]
fn blank_line_makes_empty_paragraph() {
    let record = "from: a\nto: b\ncc: c\ndate: d\nsubject: s\n\nfirst\n\nsecond\n";
    let mail = Email::parse(record).unwrap();
    assert_eq!(mail.body.len(), 3);
    assert!(mail.body[1].is_empty());
}

#[test]
fn missing_headers_are_reported_in_order() {
    assert_eq!(Email::parse(""), Err(EmailParseError::MissingFrom));
    assert_eq!(Email::parse("from: a"), Err(EmailParseError::MissingTo));
    assert_eq!(Email::parse("from: a\nto: b"), Err(EmailParseError::MissingCc));
    assert_eq!(
        Email::parse("from: a\nto: b\ncc: c"),
        Err(EmailParseError::MissingDate)
    );
    assert_eq!(
        Email::parse("from: a\nto: b\ncc: c\ndate: d"),
        Err(EmailParseError::MissingSubject)
    );
}

#[test]
fn mislabeled_header_line_fails() {
    let record = "from: a\nsubject: s\ncc: c\ndate: d\nto: b\n";
    assert_eq!(Email::parse(record), Err(EmailParseError::MissingTo));
}

#[test]
fn mailbox_sorts_dates_descending_as_text() {
    let mails = vec![
        mail_with_date("2023-09-09"),
        mail_with_date("2025-01-01"),
        mail_with_date("2024-12-31"),
    ];
    let program = EmailProgram::new(mails).unwrap();
    let dates: Vec<String> = program.emails().iter().map(|m| text_of(&m.date)).collect();
    assert_eq!(dates, vec!["2025-01-01", "2024-12-31", "2023-09-09"]);
}

#[test]
fn mailbox_refuses_empty_folder() {
    assert_eq!(EmailProgram::new(Vec::new()).unwrap_err(), MailboxError::NoEmails);
}

#[test]
fn selection_cycles_down_and_up() {
    let mails = vec![mail_with_date("a"), mail_with_date("b"), mail_with_date("c")];
    let program = EmailProgram::new(mails).unwrap();
    let mut state = EmailProgramState::new();
    let down = KeyEvent::plain(KeyCode::Down);
    let up = KeyEvent::plain(KeyCode::Up);
    assert_eq!(state.selected(), 0);
    for expected in [1, 2, 0, 1] {
        assert_eq!(program.handle_input(down, &mut state), None);
        assert_eq!(state.selected(), expected);
    }
    for expected in [0, 2, 1, 0] {
        assert_eq!(program.handle_input(up, &mut state), None);
        assert_eq!(state.selected(), expected);
    }
}
