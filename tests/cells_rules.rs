use game_of_life::cell::{Cell, CellState, ANIM_SCALE};
use game_of_life::history::{copy_board, has_live_cell, History, HISTORY_CAP};
use game_of_life::life::{amount_around, next_state};

use CellState::{Alive, Dead};

#[test]
fn new_cell_is_dead_and_hidden() {
    let c = Cell::new();
    assert_eq!(c.state(), Dead);
    assert!(!c.is_alive());
    assert_eq!(c.shrink(), ANIM_SCALE);
    assert_eq!(c.alpha(), 0);
}

#[test]
fn animated_birth_eases_in() {
    let mut c = Cell::new();
    c.live(true);
    assert_eq!(c.state(), Alive);
    assert_eq!(c.shrink(), ANIM_SCALE);
    c.update();
    assert_eq!(c.shrink(), 8000);
    assert_eq!(c.alpha(), 1000);
    c.update();
    assert_eq!(c.shrink(), 6400);
    assert_eq!(c.alpha(), 1900);
}

#[test]
fn animation_never_reaches_target() {
    let mut c = Cell::new();
    c.live(true);
    for _ in 0..1000 {
        c.update();
    }
    assert!(c.shrink() > 0);
    assert!(c.shrink() < 5);
    assert!(c.alpha() < ANIM_SCALE);
}

#[test]
fn unanimated_changes_snap() {
    let mut c = Cell::new();
    c.live(false);
    assert_eq!(c.shrink(), 0);
    c.kill(false);
    assert_eq!(c.state(), Dead);
    assert_eq!(c.shrink(), ANIM_SCALE);
}

#[test]
fn dead_cell_fades_out() {
    let mut c = Cell::new();
    c.live(false);
    for _ in 0..3 {
        c.update();
    }
    assert_eq!(c.alpha(), 2710);
    c.kill(true);
    assert_eq!(c.shrink(), 0);
    c.update();
    assert_eq!(c.shrink(), 2000);
    assert_eq!(c.alpha(), 2439);
}

#[test]
fn setting_same_state_is_idempotent() {
    let mut c = Cell::new();
    c.live(true);
    c.update();
    let before = c;
    c.live(false);
    assert_eq!(c.shrink(), before.shrink());
    assert_eq!(c.alpha(), before.alpha());
}

#[test]
fn rule_table_live_cell() {
    assert_eq!(next_state(Alive, 0), Dead);
    assert_eq!(next_state(Alive, 1), Dead);
    assert_eq!(next_state(Alive, 2), Alive);
    assert_eq!(next_state(Alive, 3), Alive);
    for n in 4..=8 {
        assert_eq!(next_state(Alive, n), Dead);
    }
}

#[test]
fn rule_table_dead_cell() {
    for n in 0..=8 {
        let expected = if n == 3 { Alive } else { Dead };
        assert_eq!(next_state(Dead, n), expected);
    }
}

#[test]
fn neighbours_full_board() {
    let board = vec![Alive; 9];
    assert_eq!(amount_around(&board, 3, 3, 1, 1), 8);
    assert_eq!(amount_around(&board, 3, 3, 0, 0), 3);
    assert_eq!(amount_around(&board, 3, 3, 1, 0), 5);
    assert_eq!(amount_around(&board, 3, 3, 2, 2), 3);
}

#[test]
fn neighbours_do_not_wrap() {
    // 4 wide, 2 high: (x, y) is at index x * 2 + y.
    let mut board = vec![Dead; 8];
    board[3 * 2 + 1] = Alive;
    assert_eq!(amount_around(&board, 4, 2, 0, 0), 0);
    assert_eq!(amount_around(&board, 4, 2, 2, 0), 1);
}

#[test]
fn neighbours_skip_the_cell_itself() {
    let mut board = vec![Dead; 9];
    board[4] = Alive;
    assert_eq!(amount_around(&board, 3, 3, 1, 1), 0);
    assert_eq!(amount_around(&board, 3, 3, 0, 0), 1);
}

#[test]
fn live_cell_detection() {
    assert!(!has_live_cell(&vec![Dead; 4]));
    assert!(has_live_cell(&vec![Dead, Dead, Alive]));
    assert!(!has_live_cell(&Vec::new()));
    assert_eq!(copy_board(&vec![Dead, Alive]), vec![Dead, Alive]);
}

fn numbered_board(i: usize) -> Vec<CellState> {
    (0..10).map(|b| if (i + 1) >> b & 1 == 1 { Alive } else { Dead }).collect()
}

#[test]
fn history_cap_evicts_oldest() {
    let mut h = History::new();
    for i in 0..600 {
        h.record_if_non_empty(&numbered_board(i));
    }
    assert_eq!(HISTORY_CAP, 500);
    assert_eq!(h.len(), 500);
    let mut popped = Vec::new();
    while let Some(b) = h.pop_latest() {
        popped.push(b);
    }
    assert_eq!(popped.len(), 500);
    assert_eq!(popped[0], numbered_board(599));
    assert_eq!(popped[499], numbered_board(100));
}

#[test]
fn history_skips_empty_boards() {
    let mut h = History::new();
    for _ in 0..10 {
        h.record_if_non_empty(&vec![Dead; 6]);
    }
    assert_eq!(h.len(), 0);
    assert!(h.pop_latest().is_none());
}

#[test]
fn history_record_then_pop() {
    let mut h = History::new();
    let b = vec![Dead, Alive, Alive];
    h.record_if_non_empty(&vec![Alive, Dead, Dead]);
    h.record_if_non_empty(&b);
    assert_eq!(h.pop_latest(), Some(b));
    assert_eq!(h.len(), 1);
}
