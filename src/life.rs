//! The Game of Life rule (B3/S23) on a bounded grid without wraparound.
//!
//! A board is the sequence of the cells' states, stored column by column:
//! the cell at `(x, y)` of a grid of height `h` is at index `x * h + y`.
use vstd::prelude::*;
use crate::cell::CellState;

verus! {

/// Whether `(x, y)` lies on a `w` by `h` grid.
pub open spec fn in_grid(w: int, h: int, x: int, y: int) -> bool {
    0 <= x < w && 0 <= y < h
}

/// 1 if `(x, y)` lies on the grid and holds a live cell, else 0.
pub open spec fn live_at(b: Seq<CellState>, w: int, h: int, x: int, y: int) -> int {
    if in_grid(w, h, x, y) && b[x * h + y] == CellState::Alive {
        1
    } else {
        0
    }
}

/// 1 if `(x, y)` lies on the grid, else 0.
pub open spec fn on_grid(w: int, h: int, x: int, y: int) -> int {
    if in_grid(w, h, x, y) {
        1
    } else {
        0
    }
}

/// The number of live cells among the eight that surround `(x, y)`.
pub open spec fn live_neighbors(b: Seq<CellState>, w: int, h: int, x: int, y: int) -> int {
    live_at(b, w, h, x - 1, y - 1) + live_at(b, w, h, x - 1, y) + live_at(b, w, h, x - 1, y + 1)
        + live_at(b, w, h, x, y - 1) + live_at(b, w, h, x, y + 1) + live_at(b, w, h, x + 1, y - 1)
        + live_at(b, w, h, x + 1, y) + live_at(b, w, h, x + 1, y + 1)
}

/// The number of cells of the grid among the eight that surround `(x, y)`.
pub open spec fn grid_neighbors(w: int, h: int, x: int, y: int) -> int {
    on_grid(w, h, x - 1, y - 1) + on_grid(w, h, x - 1, y) + on_grid(w, h, x - 1, y + 1)
        + on_grid(w, h, x, y - 1) + on_grid(w, h, x, y + 1) + on_grid(w, h, x + 1, y - 1)
        + on_grid(w, h, x + 1, y) + on_grid(w, h, x + 1, y + 1)
}

/// The next state of a cell in state `s` with `n` live neighbours.
pub open spec fn rule(s: CellState, n: int) -> CellState {
    match s {
        CellState::Alive => if n == 2 || n == 3 {
            CellState::Alive
        } else {
            CellState::Dead
        },
        CellState::Dead => if n == 3 {
            CellState::Alive
        } else {
            CellState::Dead
        },
    }
}

/// A board is well formed for a `w` by `h` grid.
pub open spec fn board_wf(b: Seq<CellState>, w: int, h: int) -> bool {
    0 <= w && 0 <= h && b.len() == w * h
}

/// The board one tick later: every cell follows the rule, reading only the
/// states of `b`.
pub open spec fn step(b: Seq<CellState>, w: int, h: int) -> Seq<CellState> {
    Seq::new(b.len(), |i: int| rule(b[i], live_neighbors(b, w, h, i / h, i % h)))
}

/// Whether some cell of the board is alive.
pub open spec fn any_alive(b: Seq<CellState>) -> bool {
    exists|i: int| 0 <= i < b.len() && b[i] == CellState::Alive
}

/// A cell of the grid has at most eight neighbours on the grid, and only
/// those can count as live neighbours.
pub proof fn lemma_neighbors_bounded(b: Seq<CellState>, w: int, h: int, x: int, y: int)
    ensures
        0 <= live_neighbors(b, w, h, x, y) <= grid_neighbors(w, h, x, y) <= 8,
        x == 0 && y == 0 ==> grid_neighbors(w, h, x, y) <= 3,
        x == 0 || y == 0 ==> grid_neighbors(w, h, x, y) <= 5,
{
}

/// A board without live cells stays without live cells.
pub proof fn lemma_empty_stays_empty(b: Seq<CellState>, w: int, h: int)
    requires
        board_wf(b, w, h),
        !any_alive(b),
    ensures
        !any_alive(step(b, w, h)),
        step(b, w, h).len() == b.len(),
{
    assert forall|i: int| 0 <= i < b.len() implies step(b, w, h)[i] == CellState::Dead by {
        let x = i / h;
        let y = i % h;
        assert forall|xx: int, yy: int| #[trigger] live_at(b, w, h, xx, yy) == 0 by {
            if in_grid(w, h, xx, yy) && b[xx * h + yy] == CellState::Alive {
                lemma_index_in_board(w, h, xx, yy);
                assert(0 <= xx * h + yy < b.len() && b[xx * h + yy] == CellState::Alive);
            }
        }
    }
}

/// The index of a cell of the grid lies inside the board.
pub proof fn lemma_index_in_board(w: int, h: int, x: int, y: int)
    requires
        in_grid(w, h, x, y),
    ensures
        0 <= x * h + y < w * h,
{
    assert(0 <= x * h + y < w * h) by (nonlinear_arith)
        requires
            0 <= x < w,
            0 <= y < h,
    ;
}

/// The next state of a cell in state `s` with `amount` live neighbours.
pub fn next_state(s: CellState, amount: u32) -> (r: CellState)
    ensures
        r == rule(s, amount as int),
        s == CellState::Alive && amount < 2 ==> r == CellState::Dead,
        s == CellState::Alive && (amount == 2 || amount == 3) ==> r == CellState::Alive,
        s == CellState::Alive && amount > 3 ==> r == CellState::Dead,
        s == CellState::Dead && amount == 3 ==> r == CellState::Alive,
        s == CellState::Dead && amount != 3 ==> r == CellState::Dead,
{
    match s {
        CellState::Alive => {
            if amount == 2 || amount == 3 {
                CellState::Alive
            } else {
                CellState::Dead
            }
        },
        CellState::Dead => {
            if amount == 3 {
                CellState::Alive
            } else {
                CellState::Dead
            }
        },
    }
}

/// 1 if `(x, y)` lies on the grid and holds a live cell, else 0.
fn live_at_exec(board: &Vec<CellState>, w: u32, h: u32, x: i64, y: i64) -> (r: u32)
    requires
        board_wf(board@, w as int, h as int),
    ensures
        r == live_at(board@, w as int, h as int, x as int, y as int),
{
    if x < 0 || y < 0 || x >= w as i64 || y >= h as i64 {
        0
    } else {
        let n: usize = board.len();
        proof {
            lemma_index_in_board(w as int, h as int, x as int, y as int);
            assert(x * h <= x * h + y < n);
        }
        if board[x as usize * h as usize + y as usize] == CellState::Alive {
            1
        } else {
            0
        }
    }
}

/// Counts the live cells around `(x, y)` on `board`; cells off the grid
/// count as dead.
pub fn amount_around(board: &Vec<CellState>, w: u32, h: u32, x: u32, y: u32) -> (r: u32)
    requires
        board_wf(board@, w as int, h as int),
        x < w,
        y < h,
    ensures
        r == live_neighbors(board@, w as int, h as int, x as int, y as int),
        r <= 8,
{
    let x = x as i64;
    let y = y as i64;
    let mut amount: u32 = 0;
    amount = amount + live_at_exec(board, w, h, x - 1, y - 1);
    amount = amount + live_at_exec(board, w, h, x - 1, y);
    amount = amount + live_at_exec(board, w, h, x - 1, y + 1);
    amount = amount + live_at_exec(board, w, h, x, y - 1);
    amount = amount + live_at_exec(board, w, h, x, y + 1);
    amount = amount + live_at_exec(board, w, h, x + 1, y - 1);
    amount = amount + live_at_exec(board, w, h, x + 1, y);
    amount = amount + live_at_exec(board, w, h, x + 1, y + 1);
    amount
}

} // verus!
