use game_of_life::cell::CellState::{self, Alive, Dead};
use game_of_life::game::Game;
use game_of_life::settings::{RewindRepeat, Settings};

fn alive_cells(g: &Game) -> Vec<(i32, i32)> {
    let mut v = Vec::new();
    for x in 0..g.width() as i32 {
        for y in 0..g.height() as i32 {
            if g.get_cell(x, y).unwrap().is_alive() {
                v.push((x, y));
            }
        }
    }
    v
}

fn seed(g: &mut Game, cells: &[(u32, u32)]) {
    for &(x, y) in cells {
        assert!(g.set_cell(x, y, Alive, false));
    }
}

/// A running game on a 10 by 10 grid whose clock started at 0.
fn running_game() -> Game {
    let mut g = Game::new(10, 100, 100, 0);
    g.set_pause(false);
    g
}

#[test]
fn new_game_layout() {
    let g = Game::new(20, 105, 61, 7);
    assert_eq!(g.width(), 5);
    assert_eq!(g.height(), 3);
    assert_eq!(g.size(), 20);
    assert_eq!(g.spare_x(), 5);
    assert_eq!(g.spare_y(), 1);
    assert!(g.is_paused());
    assert_eq!(g.interval(), 250);
    assert_eq!(g.grid_alpha(), -10000);
    assert_eq!(g.history_len(), 0);
    assert!(alive_cells(&g).is_empty());
    assert!(g.get_cell(5, 0).is_none());
    assert!(g.get_cell(0, -1).is_none());
    assert!(g.get_cell(4, 2).is_some());
}

#[test]
fn degenerate_grid_has_no_cells() {
    let mut g = Game::new(30, 20, 20, 0);
    assert_eq!(g.width(), 0);
    assert!(g.get_cell(0, 0).is_none());
    g.handle_mouse(5, 5, true, false);
    g.set_pause(false);
    g.update(1000, true);
    assert_eq!(g.history_len(), 0);
    assert!(!g.go_back(true));
}

#[test]
fn pointer_hits_the_cell_under_it() {
    // Cells of 20 pixels, offset by 2.5 pixels horizontally.
    let mut g = Game::new(20, 105, 100, 0);
    g.handle_mouse(23, 10, true, false);
    assert_eq!(alive_cells(&g), vec![(1, 0)]);
    g.handle_mouse(23, 10, false, false);
    assert!(alive_cells(&g).is_empty());
}

#[test]
fn pointer_outside_the_grid_does_nothing() {
    let mut g = Game::new(20, 105, 100, 0);
    g.handle_mouse(1, 10, true, false);
    g.handle_mouse(103, 10, true, false);
    g.handle_mouse(-40, 500, true, false);
    assert!(alive_cells(&g).is_empty());
}

#[test]
fn stroke_paints_every_cell_swept() {
    let mut g = Game::new(10, 100, 100, 0);
    g.paint_stroke(5, 5, 95, 5, true, true);
    let expected: Vec<(i32, i32)> = (0..10).map(|x| (x, 0)).collect();
    assert_eq!(alive_cells(&g), expected);
    g.paint_stroke(95, 5, 5, 95, false, true);
    assert_eq!(alive_cells(&g), vec![(0, 0), (1, 0), (2, 0), (3, 0), (4, 0), (5, 0), (6, 0), (7, 0), (8, 0)]);
}

#[test]
fn paused_game_only_animates() {
    let mut g = Game::new(10, 100, 100, 0);
    seed(&mut g, &[(1, 1)]);
    g.update(10_000, true);
    assert_eq!(alive_cells(&g), vec![(1, 1)]);
    assert_eq!(g.history_len(), 0);
    assert_eq!(g.grid_alpha(), -8200);
}

#[test]
fn tick_waits_for_the_interval() {
    let mut g = running_game();
    seed(&mut g, &[(1, 1)]);
    g.update(249, true);
    assert_eq!(alive_cells(&g), vec![(1, 1)]);
    g.update(250, true);
    assert!(alive_cells(&g).is_empty());
    assert_eq!(g.history_len(), 1);
}

#[test]
fn blinker_oscillates() {
    let mut g = running_game();
    seed(&mut g, &[(4, 3), (4, 4), (4, 5)]);
    g.update(250, false);
    assert_eq!(alive_cells(&g), vec![(3, 4), (4, 4), (5, 4)]);
    g.update(500, false);
    assert_eq!(alive_cells(&g), vec![(4, 3), (4, 4), (4, 5)]);
}

#[test]
fn glider_moves_diagonally() {
    let mut g = running_game();
    seed(&mut g, &[(1, 0), (2, 1), (0, 2), (1, 2), (2, 2)]);
    for t in 1..=4u64 {
        g.update(t * 250, true);
    }
    let mut expected = vec![(2, 1), (3, 2), (1, 3), (2, 3), (3, 3)];
    expected.sort();
    assert_eq!(alive_cells(&g), expected);
    assert_eq!(g.history_len(), 4);
}

#[test]
fn rewind_restores_previous_states() {
    let mut g = running_game();
    seed(&mut g, &[(1, 0), (2, 1), (0, 2), (1, 2), (2, 2)]);
    let before = alive_cells(&g);
    g.update(250, true);
    assert_ne!(alive_cells(&g), before);
    assert!(g.go_back(true));
    assert_eq!(alive_cells(&g), before);
    assert_eq!(g.history_len(), 0);
    assert!(!g.go_back(true));
    assert_eq!(alive_cells(&g), before);
}

#[test]
fn empty_grid_records_nothing() {
    let mut g = running_game();
    for t in 1..=50u64 {
        g.update(t * 250, true);
    }
    assert_eq!(g.history_len(), 0);
    assert!(alive_cells(&g).is_empty());
}

#[test]
fn clear_kills_every_cell() {
    let mut g = Game::new(10, 100, 100, 0);
    seed(&mut g, &[(0, 0), (9, 9), (3, 7)]);
    g.clear_screen(false);
    assert!(alive_cells(&g).is_empty());
    assert_eq!(g.get_cell(9, 9).unwrap().shrink(), 10000);
}

#[test]
fn set_cell_off_grid() {
    let mut g = Game::new(10, 100, 100, 0);
    assert!(!g.set_cell(10, 0, Alive, true));
    assert!(alive_cells(&g).is_empty());
    let s: CellState = g.get_cell(0, 0).unwrap().state();
    assert_eq!(s, Dead);
}

#[test]
fn speed_maps_to_interval() {
    let mut g = Game::new(10, 100, 100, 0);
    g.set_speed(750);
    assert_eq!(g.interval(), 250);
    g.set_speed(0);
    assert_eq!(g.interval(), 950);
    g.set_speed(5000);
    assert_eq!(g.interval(), 0);
}

#[test]
fn pause_toggles() {
    let mut g = Game::new(10, 100, 100, 0);
    g.toggle_pause();
    assert!(!g.is_paused());
    g.update(0, true);
    assert_eq!(g.grid_alpha(), -8667);
    g.toggle_pause();
    assert!(g.is_paused());
}

#[test]
fn settings_defaults() {
    let s = Settings::new();
    assert_eq!(s.speed, 750);
    assert_eq!(s.size, 20);
    assert!(s.paused);
    assert!(s.animate && s.animate_while_sim);
    assert!(!s.swap_buttons && !s.reduce_lag && !s.clear_screen);
}

#[test]
fn settings_decisions() {
    let mut s = Settings::new();
    assert!(s.frame_animations());
    s.paused = false;
    s.animate_while_sim = false;
    assert!(!s.frame_animations());
    s.animate = false;
    s.paused = true;
    assert!(!s.frame_animations());
    assert!(s.creates(true));
    assert!(!s.creates(false));
    s.swap_buttons = true;
    assert!(!s.creates(true));
    assert!(s.creates(false));
}

#[test]
fn rewind_repeat_timing() {
    let mut r = RewindRepeat::new();
    assert!(r.poll(true, 1000));
    assert!(!r.poll(true, 1400));
    assert!(!r.poll(true, 1500));
    assert!(r.poll(true, 1501));
    assert!(!r.poll(true, 1601));
    assert!(r.poll(true, 1602));
    assert!(!r.poll(false, 1700));
    assert!(r.poll(true, 1701));
}
