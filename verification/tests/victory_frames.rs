use escape_tabs::input::{KeyCode, KeyEvent};
use escape_tabs::victory::{
    cell_revealed, pick_rain_char, reveal_mask, Victory, VictoryPhase, VictoryState,
};

const ALPHABET: &str =
    "ｦｧｨｩｪｫｬｭｮｯｰｱｲｳｴｵｶｷｸｹｺｻｼｽｾｿﾀﾁﾂﾃﾄﾅﾆﾇﾈﾉﾊﾋﾌﾍﾎﾏﾐﾑﾒﾓﾔﾕﾖﾗﾘﾙﾚﾛﾜﾝABCDEFGHIJKLMNOPQRSTUVWXYZ0123456789";

#[test]
fn nothing_is_drawn_during_the_delay() {
    let mut state = VictoryState::new();
    for _ in 0..=10 {
        assert_eq!(state.on_frame(4, 2), VictoryPhase::Waiting);
    }
    assert_ne!(state.on_frame(4, 2), VictoryPhase::Waiting);
}

#[test]
fn rain_fills_the_grid_and_the_reveal_begins() {
    let mut state = VictoryState::new();
    let mut revealed_at = None;
    for frame in 0..10_000 {
        match state.on_frame(3, 2) {
            VictoryPhase::Revealing(sub) => {
                assert_eq!(sub, 0);
                revealed_at = Some(frame);
                break;
            }
            _ => {}
        }
    }
    let revealed_at = revealed_at.expect("the rain never completed");
    assert!(revealed_at >= 11);
    // The grid is fitted to the screen and full of alphabet characters.
    let grid = state.grid();
    assert_eq!(grid.len(), 3);
    for col in grid {
        assert_eq!(col.len(), 2);
        for c in col {
            assert!(ALPHABET.contains(*c));
        }
    }
    // The sub-frame advances once per further frame and the grid stays.
    assert_eq!(state.on_frame(3, 2), VictoryPhase::Revealing(1));
    assert_eq!(state.on_frame(3, 2), VictoryPhase::Revealing(2));
    assert_eq!(state.grid().len(), 3);
}

#[test]
fn columns_grow_by_at_most_one_per_frame() {
    let mut state = VictoryState::new();
    let mut heights = vec![0usize; 5];
    for _ in 0..100 {
        if state.on_frame(5, 40) == VictoryPhase::Waiting {
            continue;
        }
        let grid = state.grid();
        assert_eq!(grid.len(), 5);
        for (j, col) in grid.iter().enumerate() {
            assert!(col.len() == heights[j] || col.len() == heights[j] + 1);
            assert!(col.len() <= 40);
            heights[j] = col.len();
        }
    }
}

#[test]
fn reveal_mask_is_frame_deterministic_and_total_at_thirty() {
    let early = reveal_mask(64, 7);
    let again = reveal_mask(64, 7);
    assert_eq!(early, again);
    let late = reveal_mask(64, 30);
    assert_eq!(late.len(), 64);
    assert!(late.iter().all(|&b| b));
    // A cell once revealed stays revealed as the fraction only grows.
    let mid = reveal_mask(64, 15);
    for i in 0..64 {
        if early[i] {
            assert!(mid[i]);
        }
    }
}

#[test]
fn cell_reveal_threshold_is_linear_in_the_sub_frame() {
    assert!(cell_revealed(0, 1));
    assert!(!cell_revealed(u64::MAX, 29));
    assert!(cell_revealed(u64::MAX, 30));
    assert!(!cell_revealed(u64::MAX / 2, 14));
    assert!(cell_revealed(u64::MAX / 2, 16));
}

#[test]
fn rain_characters_come_from_the_fixed_alphabet() {
    let first: char = ALPHABET.chars().next().unwrap();
    let letter_a: char = ALPHABET.chars().nth(56).unwrap();
    let last: char = ALPHABET.chars().nth(91).unwrap();
    assert_eq!(pick_rain_char(0), first);
    assert_eq!(pick_rain_char(56), letter_a);
    assert_eq!(letter_a, 'A');
    assert_eq!(pick_rain_char(91), last);
    assert_eq!(last, '9');
    assert_eq!(pick_rain_char(92), first);
}

#[test]
fn victory_screen_ignores_input() {
    let mut state = VictoryState::new();
    let before = state.clone();
    let nav = Victory.handle_input(KeyEvent::plain(KeyCode::Enter), &mut state);
    assert_eq!(nav, None);
    assert_eq!(state, before);
}
