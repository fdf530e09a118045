//! The time trial, the one tab with two phases.
//!
//! Phase one is a row of six arithmetic prompts: the player types the
//! decimal answer of each; a right answer advances, the last one switches
//! the screen to phase two. Phase two is a wiring puzzle on an integer
//! grid: four colored connectors hang from the top border, the cursor can
//! grab one and drag it, and releasing the grab when every connector sits
//! exactly on its target point jumps back to the email reader.

use vstd::prelude::*;
use vstd::string::StrSliceExecFns;
use crate::entry::MAX_ENTRY;
use crate::input::{KeyCode, KeyEvent};
use crate::password::EMAIL_TAB;
use crate::text::str_eq;

verus! {

broadcast use vstd::array::group_array_axioms;

/// How many arithmetic prompts the first phase shows.
pub const CALC_COUNT: usize = 6;

/// The grid bounds of the wiring puzzle, both ends inclusive.
pub const GRID_X_MIN: usize = 1;

pub const GRID_X_MAX: usize = 77;

pub const GRID_Y_MIN: usize = 1;

pub const GRID_Y_MAX: usize = 15;

/// The colors the terminal front end paints the prompts and connectors
/// with; to the logic they are opaque tags.
#[derive(Debug, Clone, Copy, PartialEq, Eq, Structural)]
pub enum PuzzleColor {
    Red,
    White,
    Green,
    Blue,
}

/// The state of the time trial, one variant per phase: the prompt index,
/// typed answer and error flag of the calculation phase, or the connector
/// positions, cursor position and grabbed connector of the wiring phase.
#[derive(Debug, PartialEq, Eq)]
pub enum TimeTrialState {
    Calculations(usize, String, bool),
    Connections([(usize, usize); 4], (usize, usize), Option<usize>),
}

/// The mathematical value of a time-trial state.
pub ghost enum TimeTrialV {
    Calculations { step: usize, text: Seq<char>, error: bool },
    Connections {
        positions: Seq<(usize, usize)>,
        cursor: (usize, usize),
        grabbed: Option<usize>,
    },
}

impl View for TimeTrialState {
    type V = TimeTrialV;

    open spec fn view(&self) -> TimeTrialV {
        match self {
            TimeTrialState::Calculations(step, text, error) => TimeTrialV::Calculations {
                step: *step,
                text: text@,
                error: *error,
            },
            TimeTrialState::Connections(positions, cursor, grabbed) => TimeTrialV::Connections {
                positions: positions@,
                cursor: *cursor,
                grabbed: *grabbed,
            },
        }
    }
}

/// The decimal text of the answer the prompt at `step` expects.
pub open spec fn expected_answer(step: int) -> Seq<char> {
    if step == 0 {
        "2"@
    } else if step == 1 {
        "41"@
    } else if step == 2 {
        "16"@
    } else if step == 3 {
        "22"@
    } else if step == 4 {
        "4"@
    } else {
        "40"@
    }
}

/// Where the four connectors hang when the wiring puzzle opens.
pub open spec fn initial_positions() -> Seq<(usize, usize)> {
    seq![(11usize, 2usize), (28usize, 2usize), (54usize, 2usize), (74usize, 2usize)]
}

/// Where the wiring puzzle opens its cursor.
pub open spec fn initial_cursor() -> (usize, usize) {
    (10usize, 10usize)
}

/// The one placement of the four connectors, by connector index, that
/// solves the wiring puzzle.
pub open spec fn solution_positions() -> Seq<(usize, usize)> {
    seq![(76usize, 15usize), (61usize, 15usize), (18usize, 15usize), (40usize, 15usize)]
}

/// A point within the wiring grid.
pub open spec fn in_grid(p: (usize, usize)) -> bool {
    GRID_X_MIN <= p.0 <= GRID_X_MAX && GRID_Y_MIN <= p.1 <= GRID_Y_MAX
}

/// A well-formed time-trial state: the prompt index stays in the table and
/// the answer respects the entry bound; in the wiring phase there are
/// exactly four connectors, everything sits inside the grid, and a grabbed
/// connector sits exactly under the cursor.
pub open spec fn time_trial_wf(v: TimeTrialV) -> bool {
    match v {
        TimeTrialV::Calculations { step, text, .. } => step < CALC_COUNT && text.len()
            <= MAX_ENTRY,
        TimeTrialV::Connections { positions, cursor, grabbed } => positions.len() == 4 && in_grid(
            cursor,
        ) && (forall|i: int| 0 <= i < 4 ==> in_grid(#[trigger] positions[i])) && match grabbed {
            Some(i) => i < 4 && positions[i as int] == cursor,
            None => true,
        },
    }
}

/// Where the cursor lands after one key press: arrow keys move it one cell,
/// stopped at the grid border; other keys leave it alone.
pub open spec fn moved_cursor(cursor: (usize, usize), code: KeyCode) -> (usize, usize) {
    match code {
        KeyCode::Left => if cursor.0 > GRID_X_MIN {
            ((cursor.0 - 1) as usize, cursor.1)
        } else {
            cursor
        },
        KeyCode::Right => if cursor.0 < GRID_X_MAX {
            ((cursor.0 + 1) as usize, cursor.1)
        } else {
            cursor
        },
        KeyCode::Up => if cursor.1 > GRID_Y_MIN {
            (cursor.0, (cursor.1 - 1) as usize)
        } else {
            cursor
        },
        KeyCode::Down => if cursor.1 < GRID_Y_MAX {
            (cursor.0, (cursor.1 + 1) as usize)
        } else {
            cursor
        },
        _ => cursor,
    }
}

/// The connector Enter grabs: the lowest-indexed one sitting exactly under
/// the cursor, if any.
pub open spec fn grab_target(positions: Seq<(usize, usize)>, cursor: (usize, usize)) -> Option<
    usize,
> {
    if positions[0] == cursor {
        Some(0usize)
    } else if positions[1] == cursor {
        Some(1usize)
    } else if positions[2] == cursor {
        Some(2usize)
    } else if positions[3] == cursor {
        Some(3usize)
    } else {
        None
    }
}

/// How one key press changes the calculation phase.
pub open spec fn calc_step(step: usize, text: Seq<char>, error: bool, key: KeyEvent) -> TimeTrialV {
    match key.code {
        KeyCode::Char(c) => if text.len() < MAX_ENTRY {
            TimeTrialV::Calculations { step, text: text.push(c), error: false }
        } else {
            TimeTrialV::Calculations { step, text, error }
        },
        KeyCode::Backspace => TimeTrialV::Calculations {
            step,
            text: if text.len() == 0 {
                text
            } else {
                text.drop_last()
            },
            error: false,
        },
        KeyCode::Enter => if text == expected_answer(step as int) {
            if step + 1 == CALC_COUNT {
                TimeTrialV::Connections {
                    positions: initial_positions(),
                    cursor: initial_cursor(),
                    grabbed: None,
                }
            } else {
                TimeTrialV::Calculations {
                    step: (step + 1) as usize,
                    text: Seq::empty(),
                    error,
                }
            }
        } else {
            TimeTrialV::Calculations { step, text, error: true }
        },
        _ => TimeTrialV::Calculations { step, text, error },
    }
}

/// How one key press changes the wiring phase, and the jump it requests:
/// releasing a grab over the solved placement jumps to the email reader;
/// everything else stays on this tab.
pub open spec fn conn_step(
    positions: Seq<(usize, usize)>,
    cursor: (usize, usize),
    grabbed: Option<usize>,
    key: KeyEvent,
) -> (TimeTrialV, Option<usize>) {
    if key.code == KeyCode::Enter && grabbed is Some && positions == solution_positions() {
        (TimeTrialV::Connections { positions, cursor, grabbed }, Some(EMAIL_TAB))
    } else {
        let cursor2 = moved_cursor(cursor, key.code);
        let grabbed2 = if key.code == KeyCode::Enter {
            match grabbed {
                Some(_) => None,
                None => grab_target(positions, cursor),
            }
        } else {
            grabbed
        };
        let positions2 = match grabbed2 {
            Some(i) => positions.update(i as int, cursor2),
            None => positions,
        };
        (TimeTrialV::Connections { positions: positions2, cursor: cursor2, grabbed: grabbed2 },
        None)
    }
}

/// How one key press changes the time trial, whichever phase it is in.
pub open spec fn time_trial_step(v: TimeTrialV, key: KeyEvent) -> (TimeTrialV, Option<usize>) {
    match v {
        TimeTrialV::Calculations { step, text, error } => (calc_step(step, text, error, key), None),
        TimeTrialV::Connections { positions, cursor, grabbed } => conn_step(
            positions,
            cursor,
            grabbed,
            key,
        ),
    }
}

/// The time trial after a whole sequence of key presses, ignoring the
/// jumps the presses may have requested along the way.
pub open spec fn apply_time_trial(v: TimeTrialV, keys: Seq<KeyEvent>) -> TimeTrialV
    decreases keys.len(),
{
    if keys.len() == 0 {
        v
    } else {
        time_trial_step(apply_time_trial(v, keys.drop_last()), keys.last()).0
    }
}

/// Where the cursor ends after a whole sequence of key presses.
pub open spec fn cursor_after(cursor: (usize, usize), keys: Seq<KeyEvent>) -> (usize, usize)
    decreases keys.len(),
{
    if keys.len() == 0 {
        cursor
    } else {
        moved_cursor(cursor_after(cursor, keys.drop_last()), keys.last().code)
    }
}

pub open spec fn is_arrow(code: KeyCode) -> bool {
    code == KeyCode::Left || code == KeyCode::Right || code == KeyCode::Up || code
        == KeyCode::Down
}

/// Every key press keeps a well-formed time trial well formed; with
/// [`apply_time_trial`] this bounds the typed answer and keeps cursor and
/// connectors inside the grid over any input sequence.
pub proof fn lemma_time_trial_step_wf(v: TimeTrialV, key: KeyEvent)
    requires
        time_trial_wf(v),
    ensures
        time_trial_wf(time_trial_step(v, key).0),
{
}

/// A wrong answer never advances the prompt: Enter on an entry other than
/// the expected text only raises the error flag.
pub proof fn lemma_wrong_answer_keeps_step(step: usize, text: Seq<char>, error: bool, key: KeyEvent)
    requires
        key.code == KeyCode::Enter,
        text != expected_answer(step as int),
    ensures
        calc_step(step, text, error, key) == (TimeTrialV::Calculations { step, text, error: true }),
{
}

/// Dragging: while connector `i` is grabbed, any sequence of arrow presses
/// moves cursor and connector together — each press shifts the cursor one
/// cell, stopped at the grid border, and the connector ends exactly on the
/// cursor; the other connectors never move and the grab never ends.
pub proof fn lemma_drag_follows_cursor(
    positions: Seq<(usize, usize)>,
    cursor: (usize, usize),
    i: usize,
    keys: Seq<KeyEvent>,
)
    requires
        time_trial_wf(TimeTrialV::Connections { positions, cursor, grabbed: Some(i) }),
        forall|k: int| 0 <= k < keys.len() ==> is_arrow(#[trigger] keys[k].code),
    ensures
        ({
            let w = apply_time_trial(
                TimeTrialV::Connections { positions, cursor, grabbed: Some(i) },
                keys,
            );
            let end = cursor_after(cursor, keys);
            &&& time_trial_wf(w)
            &&& w matches TimeTrialV::Connections { positions: p2, cursor: c2, grabbed: g2 }
            &&& w->Connections_cursor == end
            &&& w->Connections_grabbed == Some(i)
            &&& w->Connections_positions.len() == 4
            &&& w->Connections_positions[i as int] == end
            &&& forall|j: int|
                0 <= j < 4 && j != i ==> w->Connections_positions[j] == positions[j]
        }),
    decreases keys.len(),
{
    if keys.len() > 0 {
        lemma_drag_follows_cursor(positions, cursor, i, keys.drop_last());
    }
}

/// The time trial has no per-session configuration.
#[derive(Debug, Clone, PartialEq, Eq, Structural)]
pub struct TimeTrial;

/// The prompt shown at `step`.
pub open spec fn spec_expression(step: int) -> Seq<char> {
    if step == 0 {
        "77++75"@
    } else if step == 1 {
        "34-19+26"@
    } else if step == 2 {
        "12+16*4"@
    } else if step == 3 {
        "(26-24)*6"@
    } else if step == 4 {
        "40÷12+8"@
    } else {
        "20++20"@
    }
}

/// The color of the prompt at `step`.
pub open spec fn spec_prompt_color(step: int) -> PuzzleColor {
    if step == 0 {
        PuzzleColor::Red
    } else if step == 1 || step == 2 {
        PuzzleColor::Blue
    } else if step == 3 {
        PuzzleColor::Green
    } else if step == 4 {
        PuzzleColor::Red
    } else {
        PuzzleColor::Green
    }
}

/// The fixed color of connector `i`.
pub open spec fn spec_connector_color(i: int) -> PuzzleColor {
    if i == 0 {
        PuzzleColor::Red
    } else if i == 1 {
        PuzzleColor::White
    } else if i == 2 {
        PuzzleColor::Green
    } else {
        PuzzleColor::Blue
    }
}

/// The prompt text shown at `step`; the answers above are what these work
/// out to under the game's quirky reading of the operators.
pub fn expression_text(step: usize) -> (r: &'static str)
    requires
        step < CALC_COUNT,
    ensures
        r@ == spec_expression(step as int),
{
    match step {
        0 => "77++75",
        1 => "34-19+26",
        2 => "12+16*4",
        3 => "(26-24)*6",
        4 => "40÷12+8",
        _ => "20++20",
    }
}

/// The decimal text of the answer the prompt at `step` expects.
pub fn expected_answer_text(step: usize) -> (r: &'static str)
    requires
        step < CALC_COUNT,
    ensures
        r@ == expected_answer(step as int),
{
    match step {
        0 => "2",
        1 => "41",
        2 => "16",
        3 => "22",
        4 => "4",
        _ => "40",
    }
}

/// The color the prompt at `step` is drawn in.
pub fn prompt_color(step: usize) -> (r: PuzzleColor)
    requires
        step < CALC_COUNT,
    ensures
        r == spec_prompt_color(step as int),
{
    match step {
        0 => PuzzleColor::Red,
        1 => PuzzleColor::Blue,
        2 => PuzzleColor::Blue,
        3 => PuzzleColor::Green,
        4 => PuzzleColor::Red,
        _ => PuzzleColor::Green,
    }
}

/// The fixed color of connector `i`.
pub fn connector_color(i: usize) -> (r: PuzzleColor)
    requires
        i < 4,
    ensures
        r == spec_connector_color(i as int),
{
    match i {
        0 => PuzzleColor::Red,
        1 => PuzzleColor::White,
        2 => PuzzleColor::Green,
        _ => PuzzleColor::Blue,
    }
}

/// True exactly when the four connectors sit on the solved placement.
fn is_solved(positions: &[(usize, usize); 4]) -> (r: bool)
    ensures
        r == (positions@ == solution_positions()),
{
    let solved = positions[0].0 == 76 && positions[0].1 == 15 && positions[1].0 == 61
        && positions[1].1 == 15 && positions[2].0 == 18 && positions[2].1 == 15
        && positions[3].0 == 40 && positions[3].1 == 15;
    proof {
        if solved {
            assert(positions@ =~= solution_positions());
        }
        if positions@ == solution_positions() {
            assert(positions@[0] == (76usize, 15usize));
            assert(positions@[1] == (61usize, 15usize));
            assert(positions@[2] == (18usize, 15usize));
            assert(positions@[3] == (40usize, 15usize));
        }
    }
    solved
}

/// The connector under the cursor, if any.
fn find_connector(positions: &[(usize, usize); 4], cursor: (usize, usize)) -> (r: Option<usize>)
    ensures
        r == grab_target(positions@, cursor),
{
    if positions[0].0 == cursor.0 && positions[0].1 == cursor.1 {
        Some(0)
    } else if positions[1].0 == cursor.0 && positions[1].1 == cursor.1 {
        Some(1)
    } else if positions[2].0 == cursor.0 && positions[2].1 == cursor.1 {
        Some(2)
    } else if positions[3].0 == cursor.0 && positions[3].1 == cursor.1 {
        Some(3)
    } else {
        None
    }
}

impl TimeTrial {
    /// The state the time trial starts in: the first prompt, nothing typed.
    pub fn initial_state() -> (s: TimeTrialState)
        ensures
            s@ == (TimeTrialV::Calculations { step: 0usize, text: Seq::<char>::empty(), error: false }),
            time_trial_wf(s@),
    {
        TimeTrialState::Calculations(0, String::new(), false)
    }

    /// Feed one key press to whichever phase is active.
    pub fn handle_input(&self, key: KeyEvent, state: &mut TimeTrialState) -> (nav: Option<usize>)
        requires
            time_trial_wf(old(state)@),
        ensures
            (final(state)@, nav) == time_trial_step(old(state)@, key),
            time_trial_wf(final(state)@),
    {
        match state {
            TimeTrialState::Calculations(step, text, error) => {
                match key.code {
                    KeyCode::Char(c) => {
                        if text.as_str().unicode_len() < MAX_ENTRY {
                            text.push(c);
                            *error = false;
                        }
                        None
                    },
                    KeyCode::Backspace => {
                        text.pop();
                        *error = false;
                        None
                    },
                    KeyCode::Enter => {
                        if str_eq(text.as_str(), expected_answer_text(*step)) {
                            if *step + 1 == CALC_COUNT {
                                *state = TimeTrialState::Connections(
                                    [(11, 2), (28, 2), (54, 2), (74, 2)],
                                    (10, 10),
                                    None,
                                );
                            } else {
                                *step = *step + 1;
                                text.clear();
                            }
                        } else {
                            *error = true;
                        }
                        None
                    },
                    _ => None,
                }
            },
            TimeTrialState::Connections(positions, cursor, grabbed) => {
                match key.code {
                    KeyCode::Left => {
                        if cursor.0 > GRID_X_MIN {
                            cursor.0 = cursor.0 - 1;
                        }
                    },
                    KeyCode::Right => {
                        if cursor.0 < GRID_X_MAX {
                            cursor.0 = cursor.0 + 1;
                        }
                    },
                    KeyCode::Up => {
                        if cursor.1 > GRID_Y_MIN {
                            cursor.1 = cursor.1 - 1;
                        }
                    },
                    KeyCode::Down => {
                        if cursor.1 < GRID_Y_MAX {
                            cursor.1 = cursor.1 + 1;
                        }
                    },
                    KeyCode::Enter => {
                        match grabbed {
                            Some(_) => {
                                if is_solved(positions) {
                                    return Some(EMAIL_TAB);
                                }
                                *grabbed = None;
                            },
                            None => {
                                *grabbed = find_connector(positions, *cursor);
                            },
                        }
                    },
                    _ => {},
                }
                if let Some(i) = *grabbed {
                    positions[i] = *cursor;
                }
                None
            },
        }
    }
}

} // verus!
