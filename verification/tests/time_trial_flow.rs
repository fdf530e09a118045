use escape_tabs::input::{KeyCode, KeyEvent};
use escape_tabs::time_trial::{expected_answer_text, TimeTrial, TimeTrialState};

fn key(code: KeyCode) -> KeyEvent {
    KeyEvent::plain(code)
}

fn type_str(trial: &TimeTrial, state: &mut TimeTrialState, s: &str) {
    for c in s.chars() {
        assert_eq!(trial.handle_input(key(KeyCode::Char(c)), state), None);
    }
}

#[test]
fn wrong_result_sets_error_and_keeps_step() {
    // The first prompt shows "77++75" but expects 2: typing the digits of
    // the naive sum must fail.
    let trial = TimeTrial;
    let mut state = TimeTrial::initial_state();
    type_str(&trial, &mut state, "77");
    assert_eq!(trial.handle_input(key(KeyCode::Enter), &mut state), None);
    match &state {
        TimeTrialState::Calculations(step, text, error) => {
            assert_eq!(*step, 0);
            assert_eq!(text.as_str(), "77");
            assert!(*error);
        }
        _ => panic!("left the calculation phase"),
    }
}

#[test]
fn right_result_advances_and_clears_entry() {
    let trial = TimeTrial;
    let mut state = TimeTrial::initial_state();
    type_str(&trial, &mut state, "2");
    assert_eq!(trial.handle_input(key(KeyCode::Enter), &mut state), None);
    match &state {
        TimeTrialState::Calculations(step, text, error) => {
            assert_eq!(*step, 1);
            assert_eq!(text.as_str(), "");
            assert!(!*error);
        }
        _ => panic!("left the calculation phase"),
    }
}

#[test]
fn all_six_answers_reach_the_wiring_puzzle() {
    let trial = TimeTrial;
    let mut state = TimeTrial::initial_state();
    for step in 0..6 {
        let answer = expected_answer_text(step);
        type_str(&trial, &mut state, answer);
        assert_eq!(trial.handle_input(key(KeyCode::Enter), &mut state), None);
    }
    match &state {
        TimeTrialState::Connections(positions, cursor, grabbed) => {
            assert_eq!(*positions, [(11, 2), (28, 2), (54, 2), (74, 2)]);
            assert_eq!(*cursor, (10, 10));
            assert_eq!(*grabbed, None);
        }
        _ => panic!("still in the calculation phase"),
    }
}

#[test]
fn expected_answers_match_the_prompts() {
    let answers: Vec<&str> = (0..6).map(expected_answer_text).collect();
    assert_eq!(answers, vec!["2", "41", "16", "22", "4", "40"]);
}

#[test]
fn cursor_is_clamped_to_the_grid() {
    let trial = TimeTrial;
    let mut state =
        TimeTrialState::Connections([(11, 2), (28, 2), (54, 2), (74, 2)], (1, 1), None);
    trial.handle_input(key(KeyCode::Left), &mut state);
    trial.handle_input(key(KeyCode::Up), &mut state);
    match &state {
        TimeTrialState::Connections(_, cursor, _) => assert_eq!(*cursor, (1, 1)),
        _ => unreachable!(),
    }
    let mut state =
        TimeTrialState::Connections([(11, 2), (28, 2), (54, 2), (74, 2)], (77, 15), None);
    trial.handle_input(key(KeyCode::Right), &mut state);
    trial.handle_input(key(KeyCode::Down), &mut state);
    match &state {
        TimeTrialState::Connections(_, cursor, _) => assert_eq!(*cursor, (77, 15)),
        _ => unreachable!(),
    }
}

#[test]
fn grabbed_connector_follows_the_cursor() {
    let trial = TimeTrial;
    let mut state =
        TimeTrialState::Connections([(11, 2), (28, 2), (54, 2), (74, 2)], (11, 2), None);
    // Grab connector 0 under the cursor, then drag it down and right.
    assert_eq!(trial.handle_input(key(KeyCode::Enter), &mut state), None);
    trial.handle_input(key(KeyCode::Down), &mut state);
    trial.handle_input(key(KeyCode::Down), &mut state);
    trial.handle_input(key(KeyCode::Right), &mut state);
    match &state {
        TimeTrialState::Connections(positions, cursor, grabbed) => {
            assert_eq!(*grabbed, Some(0));
            assert_eq!(*cursor, (12, 4));
            assert_eq!(positions[0], (12, 4));
            assert_eq!(positions[1], (28, 2));
        }
        _ => unreachable!(),
    }
}

#[test]
fn grab_on_empty_cell_is_noop() {
    let trial = TimeTrial;
    let mut state =
        TimeTrialState::Connections([(11, 2), (28, 2), (54, 2), (74, 2)], (40, 10), None);
    assert_eq!(trial.handle_input(key(KeyCode::Enter), &mut state), None);
    match &state {
        TimeTrialState::Connections(_, _, grabbed) => assert_eq!(*grabbed, None),
        _ => unreachable!(),
    }
}

#[test]
fn releasing_off_solution_keeps_positions() {
    let trial = TimeTrial;
    let mut state =
        TimeTrialState::Connections([(11, 2), (28, 2), (54, 2), (74, 2)], (11, 2), Some(0));
    assert_eq!(trial.handle_input(key(KeyCode::Enter), &mut state), None);
    match &state {
        TimeTrialState::Connections(positions, _, grabbed) => {
            assert_eq!(*grabbed, None);
            assert_eq!(*positions, [(11, 2), (28, 2), (54, 2), (74, 2)]);
        }
        _ => unreachable!(),
    }
}

#[test]
fn releasing_on_solution_jumps_to_email_reader() {
    let trial = TimeTrial;
    let mut state = TimeTrialState::Connections(
        [(76, 15), (61, 15), (18, 15), (40, 15)],
        (40, 15),
        Some(3),
    );
    assert_eq!(trial.handle_input(key(KeyCode::Enter), &mut state), Some(1));
}

#[test]
fn solution_must_match_by_connector_index() {
    // The same four points assigned to the wrong connectors do not solve
    // the puzzle.
    let trial = TimeTrial;
    let mut state = TimeTrialState::Connections(
        [(61, 15), (76, 15), (18, 15), (40, 15)],
        (40, 15),
        Some(3),
    );
    assert_eq!(trial.handle_input(key(KeyCode::Enter), &mut state), None);
}
