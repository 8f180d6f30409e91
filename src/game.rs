//! The controller: the grid of cells, the simulation clock, the grid-line fade
//! and the rewind history.
use vstd::prelude::*;
use crate::cell::{advanced, with_state, Cell, CellState, CellView, ANIM_SCALE};
use crate::geometry::{calculate_square_amount, fit_count};
use crate::history::{record, History, HISTORY_CAP};
use crate::life::{amount_around, any_alive, in_grid, next_state, step};
use crate::line::{line, plot_line, Point};

verus! {

/// Milliseconds between ticks of a new game.
pub const START_INTERVAL: u64 = 250;

/// Opacity of the grid lines while paused, in units of `ANIM_SCALE`.
pub const PAUSED_GRID_ALPHA: i64 = 3500;

/// The slowest and the fastest speed setting, in thousandths.
pub const MIN_SPEED: u64 = 50;
pub const MAX_SPEED: u64 = 1000;

/// The mathematical content of a [`Game`].
pub struct GameView {
    /// Cells per row and per column.
    pub width: nat,
    pub height: nat,
    /// Edge length of a cell, in pixels.
    pub size: nat,
    /// Space left beside and below the grid; the grid is offset by half of it.
    pub spare_x: nat,
    pub spare_y: nat,
    /// Cells column by column: `(x, y)` is at index `x * height + y`.
    pub cells: Seq<CellView>,
    pub paused: bool,
    /// Milliseconds between ticks.
    pub interval: nat,
    /// Time of the last tick, in milliseconds.
    pub last_update: nat,
    /// Opacity of the grid lines, and the opacity it fades towards.
    pub grid_alpha: int,
    pub wanted_grid_alpha: int,
    pub history: Seq<Seq<CellState>>,
}

/// The lifecycle states of `cells`.
pub open spec fn states(cells: Seq<CellView>) -> Seq<CellState> {
    cells.map_values(|c: CellView| c.state)
}

/// The opacity that the grid lines fade towards.
pub open spec fn grid_alpha_target(paused: bool) -> int {
    if paused {
        PAUSED_GRID_ALPHA as int
    } else {
        0
    }
}

/// One frame of the grid-line fade: the distance to the target shrinks by
/// two fifteenths, rounded towards zero.
pub open spec fn grid_fade(v: int, t: int) -> int {
    if t >= v {
        v + (t - v) * 2 / 15
    } else {
        v - (v - t) * 2 / 15
    }
}

/// Whether the pixel coordinate `p` lies strictly inside the `i`-th cell of an
/// axis whose cells have edge `size` and which is offset by half of `spare`.
pub open spec fn inside(i: int, p: int, size: int, spare: int) -> bool {
    spare + 2 * i * size < 2 * p < spare + 2 * (i + 1) * size
}

pub open spec fn tool_state(make_alive: bool) -> CellState {
    if make_alive {
        CellState::Alive
    } else {
        CellState::Dead
    }
}

/// The speed setting clamped to the slider's range.
pub open spec fn clamp_speed(speed: int) -> int {
    if speed < MIN_SPEED {
        MIN_SPEED as int
    } else if speed > MAX_SPEED {
        MAX_SPEED as int
    } else {
        speed
    }
}

impl GameView {
    pub open spec fn wf(self) -> bool {
        &&& self.size > 0
        &&& self.cells.len() == self.width * self.height
        &&& forall|k: int| 0 <= k < self.cells.len() ==> (#[trigger] self.cells[k]).wf()
        &&& self.history.len() <= HISTORY_CAP
        &&& forall|e: int|
            0 <= e < self.history.len() ==> (#[trigger] self.history[e]).len()
                == self.cells.len()
        &&& self.width * self.size + self.spare_x <= u32::MAX
        &&& self.height * self.size + self.spare_y <= u32::MAX
        &&& -ANIM_SCALE <= self.grid_alpha <= ANIM_SCALE
        &&& 0 <= self.wanted_grid_alpha <= ANIM_SCALE
        &&& self.last_update <= u64::MAX
        &&& self.interval <= u64::MAX
    }

    /// The index of cell `(x, y)`.
    pub open spec fn index(self, x: int, y: int) -> int {
        x * self.height + y
    }

    /// Whether the tick that is due at time `now` fires.
    pub open spec fn ticks(self, now: int) -> bool {
        !self.paused && now >= self.last_update + self.interval
    }

    /// The cells after a pointer edit at pixel `(px, py)`: the one cell
    /// whose square holds the point, if any, is set to `s`.
    pub open spec fn edited(self, px: int, py: int, s: CellState, animate: bool) -> Seq<
        CellView,
    > {
        Seq::new(
            self.cells.len(),
            |k: int|
                if inside(k / (self.height as int), px, self.size as int, self.spare_x as int) && inside(
                    k % (self.height as int),
                    py,
                    self.size as int,
                    self.spare_y as int,
                ) {
                    with_state(self.cells[k], s, animate)
                } else {
                    self.cells[k]
                },
        )
    }

    /// The game after a pointer edit at pixel `(px, py)`.
    pub open spec fn edit(self, px: int, py: int, s: CellState, animate: bool) -> GameView {
        GameView { cells: self.edited(px, py, s, animate), ..self }
    }

    /// The game after one frame at time `now`; see [`Game::update`].
    pub open spec fn updated(self, now: int, animate: bool) -> GameView {
        let faded = grid_fade(self.grid_alpha, self.wanted_grid_alpha);
        if self.ticks(now) {
            GameView {
                cells: Seq::new(
                    self.cells.len(),
                    |k: int|
                        with_state(
                            advanced(self.cells[k]),
                            step(states(self.cells), self.width as int, self.height as int)[k],
                            animate,
                        ),
                ),
                grid_alpha: faded,
                last_update: now as nat,
                history: record(self.history, states(self.cells)),
                ..self
            }
        } else {
            GameView {
                cells: Seq::new(self.cells.len(), |k: int| advanced(self.cells[k])),
                grid_alpha: faded,
                ..self
            }
        }
    }

    /// The game after a rewind; see [`Game::go_back`].
    pub open spec fn rewound(self, animate: bool) -> GameView {
        if self.history.len() == 0 {
            self
        } else {
            GameView {
                cells: Seq::new(
                    self.cells.len(),
                    |k: int| with_state(self.cells[k], self.history.last()[k], animate),
                ),
                history: self.history.drop_last(),
                ..self
            }
        }
    }

    /// The game after pointer edits at each of `pts`, in order.
    pub open spec fn edit_along(self, pts: Seq<Point>, s: CellState, animate: bool) -> GameView
        decreases pts.len(),
    {
        if pts.len() == 0 {
            self
        } else {
            self.edit_along(pts.drop_last(), s, animate).edit(
                pts.last().x as int,
                pts.last().y as int,
                s,
                animate,
            )
        }
    }
}

/// Splits an index of a `w` by `h` grid into its coordinates.
pub proof fn lemma_coords(w: int, h: int, k: int)
    requires
        0 <= k < w * h,
        0 <= w,
        0 <= h,
    ensures
        h > 0,
        0 <= k / h < w,
        0 <= k % h < h,
        k == (k / h) * h + k % h,
{
    if h <= 0 {
        assert(w * h <= 0) by (nonlinear_arith)
            requires
                0 <= w,
                h <= 0,
        ;
    }
    vstd::arithmetic::div_mod::lemma_fundamental_div_mod(k, h);
    assert(k / h * h == h * (k / h)) by (nonlinear_arith);
    assert(0 <= k / h) by {
        vstd::arithmetic::div_mod::lemma_div_pos_is_pos(k, h);
    }
    if k / h >= w {
        assert((k / h) * h >= w * h) by (nonlinear_arith)
            requires
                k / h >= w,
                h > 0,
        ;
    }
}

/// Joins the coordinates of a cell of a `w` by `h` grid into its index.
pub proof fn lemma_index(w: int, h: int, x: int, y: int)
    requires
        in_grid(w, h, x, y),
    ensures
        0 <= x * h + y < w * h,
        (x * h + y) / h == x,
        (x * h + y) % h == y,
{
    crate::life::lemma_index_in_board(w, h, x, y);
    vstd::arithmetic::div_mod::lemma_fundamental_div_mod_converse(x * h + y, h, x, y);
}

/// A pixel coordinate lies inside at most one cell of an axis.
pub proof fn lemma_inside_unique(i: int, j: int, p: int, size: int, spare: int)
    requires
        size > 0,
        inside(i, p, size, spare),
        inside(j, p, size, spare),
    ensures
        i == j,
{
    if i < j {
        assert(2 * (i + 1) * size <= 2 * j * size) by (nonlinear_arith)
            requires
                i + 1 <= j,
                size > 0,
        ;
    }
    if j < i {
        assert(2 * (j + 1) * size <= 2 * i * size) by (nonlinear_arith)
            requires
                j + 1 <= i,
                size > 0,
        ;
    }
}

/// Finds the cell of an axis that holds the pixel coordinate `p`.
fn hit_axis(count: u32, size: u32, spare: u32, p: i32) -> (r: Option<u32>)
    requires
        size > 0,
        count * size + spare <= u32::MAX,
    ensures
        r is Some ==> r->0 < count && inside(r->0 as int, p as int, size as int, spare as int),
        r is None ==> forall|i: int|
            0 <= i < count ==> !inside(i, p as int, size as int, spare as int),
{
    let mut i: u32 = 0;
    while i < count
        invariant
            i <= count,
            size > 0,
            count * size + spare <= u32::MAX,
            forall|j: int| 0 <= j < i ==> !inside(j, p as int, size as int, spare as int),
        decreases count - i,
    {
        proof {
            assert(i * size <= count * size) by (nonlinear_arith)
                requires
                    i <= count,
            ;
        }
        let lo: i64 = spare as i64 + 2 * (i as i64 * size as i64);
        let hi: i64 = lo + 2 * size as i64;
        proof {
            assert(2 * (i + 1) * size == 2 * (i * size) + 2 * size) by (nonlinear_arith);
            assert(2 * i * size == 2 * (i * size)) by (nonlinear_arith);
        }
        if lo < 2 * p as i64 && (2 * p as i64) < hi {
            return Some(i);
        }
        i = i + 1;
    }
    None
}

/// Lifecycle states of `cells`.
fn snapshot(cells: &Vec<Cell>) -> (r: Vec<CellState>)
    ensures
        r@ == states(cells@.map_values(|c: Cell| c@)),
{
    let mut r: Vec<CellState> = Vec::new();
    let mut i: usize = 0;
    while i < cells.len()
        invariant
            i <= cells@.len(),
            r@ == states(cells@.map_values(|c: Cell| c@)).subrange(0, i as int),
        decreases cells@.len() - i,
    {
        r.push(cells[i].state());
        i = i + 1;
        assert(r@ =~= states(cells@.map_values(|c: Cell| c@)).subrange(0, i as int));
    }
    assert(r@ =~= states(cells@.map_values(|c: Cell| c@)));
    r
}

/// The views of `cells`.
pub open spec fn cell_views(cells: Seq<Cell>) -> Seq<CellView> {
    cells.map_values(|c: Cell| c@)
}

/// The game: a grid of cells, a clock that paces the ticks, and a history.
pub struct Game {
    cells: Vec<Cell>,
    width: u32,
    height: u32,
    size: u32,
    spare_x: u32,
    spare_y: u32,
    paused: bool,
    interval: u64,
    last_update: u64,
    grid_alpha: i64,
    wanted_grid_alpha: i64,
    history: History,
}

impl View for Game {
    type V = GameView;

    closed spec fn view(&self) -> GameView {
        GameView {
            width: self.width as nat,
            height: self.height as nat,
            size: self.size as nat,
            spare_x: self.spare_x as nat,
            spare_y: self.spare_y as nat,
            cells: cell_views(self.cells@),
            paused: self.paused,
            interval: self.interval as nat,
            last_update: self.last_update as nat,
            grid_alpha: self.grid_alpha as int,
            wanted_grid_alpha: self.wanted_grid_alpha as int,
            history: self.history@,
        }
    }
}

impl Game {
    /// A paused game whose grid fills a `width` by `height` viewport with
    /// dead cells of edge `size`, centred, with its clock started at `now`.
    pub fn new(size: u32, width: u32, height: u32, now: u64) -> (g: Game)
        requires
            size > 0,
            fit_count(size as nat, width as nat) * fit_count(size as nat, height as nat)
                <= usize::MAX,
        ensures
            g@.wf(),
            g@.size == size,
            g@.width == fit_count(size as nat, width as nat),
            g@.height == fit_count(size as nat, height as nat),
            g@.spare_x == width - g@.width * size,
            g@.spare_y == height - g@.height * size,
            forall|k: int|
                0 <= k < g@.cells.len() ==> #[trigger] g@.cells[k] == (CellView {
                    state: CellState::Dead,
                    shrink: ANIM_SCALE as int,
                    alpha: 0,
                }),
            g@.paused,
            g@.interval == START_INTERVAL,
            g@.last_update == now,
            g@.grid_alpha == -ANIM_SCALE,
            g@.wanted_grid_alpha == PAUSED_GRID_ALPHA,
            g@.history.len() == 0,
    {
        let amount = calculate_square_amount(size, width, height);
        let n: usize = amount.amount_x as usize * amount.amount_y as usize;
        let mut cells: Vec<Cell> = Vec::new();
        let mut k: usize = 0;
        while k < n
            invariant
                k <= n,
                cells@.len() == k,
                forall|j: int|
                    0 <= j < k ==> #[trigger] cells@[j]@ == (CellView {
                        state: CellState::Dead,
                        shrink: ANIM_SCALE as int,
                        alpha: 0,
                    }),
            decreases n - k,
        {
            cells.push(Cell::new());
            k = k + 1;
        }
        Game {
            cells,
            width: amount.amount_x,
            height: amount.amount_y,
            size,
            spare_x: amount.spare_x,
            spare_y: amount.spare_y,
            paused: true,
            interval: START_INTERVAL,
            last_update: now,
            grid_alpha: -ANIM_SCALE,
            wanted_grid_alpha: PAUSED_GRID_ALPHA,
            history: History::new(),
        }
    }

    /// Cells per row.
    pub fn width(&self) -> (r: u32)
        ensures
            r == self@.width,
    {
        self.width
    }

    /// Cells per column.
    pub fn height(&self) -> (r: u32)
        ensures
            r == self@.height,
    {
        self.height
    }

    /// Edge length of a cell, in pixels.
    pub fn size(&self) -> (r: u32)
        ensures
            r == self@.size,
    {
        self.size
    }

    /// Width left beside the grid; the grid starts at half of it.
    pub fn spare_x(&self) -> (r: u32)
        ensures
            r == self@.spare_x,
    {
        self.spare_x
    }

    /// Height left below the grid; the grid starts at half of it.
    pub fn spare_y(&self) -> (r: u32)
        ensures
            r == self@.spare_y,
    {
        self.spare_y
    }

    pub fn is_paused(&self) -> (r: bool)
        ensures
            r == self@.paused,
    {
        self.paused
    }

    /// Milliseconds between ticks.
    pub fn interval(&self) -> (r: u64)
        ensures
            r == self@.interval,
    {
        self.interval
    }

    /// Opacity of the grid lines, in units of `ANIM_SCALE` (negative values
    /// draw nothing).
    pub fn grid_alpha(&self) -> (r: i64)
        ensures
            r == self@.grid_alpha,
    {
        self.grid_alpha
    }

    /// The number of snapshots available for rewinding.
    pub fn history_len(&self) -> (r: usize)
        ensures
            r == self@.history.len(),
    {
        self.history.len()
    }

    /// The cell at `(x, y)`, or `None` off the grid.
    pub fn get_cell(&self, x: i32, y: i32) -> (r: Option<&Cell>)
        requires
            self@.wf(),
        ensures
            r is Some <==> in_grid(self@.width as int, self@.height as int, x as int, y as int),
            r is Some ==> r->0@ == self@.cells[self@.index(x as int, y as int)],
    {
        if x < 0 || y < 0 || x as i64 >= self.width as i64 || y as i64 >= self.height as i64 {
            return None;
        }
        let n: usize = self.cells.len();
        proof {
            lemma_index(self@.width as int, self@.height as int, x as int, y as int);
            assert(x * self.height <= x * self.height + y < n);
        }
        Some(&self.cells[x as usize * self.height as usize + y as usize])
    }

    /// Sets the cell at index `k` to `state`.
    fn set_cell_at(&mut self, k: usize, state: CellState, animations: bool)
        requires
            old(self)@.wf(),
            k < old(self)@.cells.len(),
        ensures
            final(self)@ == (GameView {
                cells: old(self)@.cells.update(k as int, with_state(old(self)@.cells[k as int], state, animations)),
                ..old(self)@
            }),
            final(self)@.wf(),
    {
        let mut c = self.cells[k];
        c.set_state(state, animations);
        self.cells.set(k, c);
        assert(cell_views(self.cells@) =~= cell_views(old(self).cells@).update(k as int, c@));
    }

    /// Sets the cell at `(x, y)` to `state`; off the grid nothing changes.
    /// Returns whether the point is on the grid.
    pub fn set_cell(&mut self, x: u32, y: u32, state: CellState, animations: bool) -> (r: bool)
        requires
            old(self)@.wf(),
        ensures
            r == in_grid(old(self)@.width as int, old(self)@.height as int, x as int, y as int),
            r ==> final(self)@ == (GameView {
                cells: old(self)@.cells.update(
                    old(self)@.index(x as int, y as int),
                    with_state(old(self)@.cells[old(self)@.index(x as int, y as int)], state, animations),
                ),
                ..old(self)@
            }),
            !r ==> final(self)@ == old(self)@,
            final(self)@.wf(),
    {
        if x >= self.width || y >= self.height {
            return false;
        }
        let n: usize = self.cells.len();
        proof {
            lemma_index(self@.width as int, self@.height as int, x as int, y as int);
            assert(x * self.height <= x * self.height + y < n);
        }
        self.set_cell_at(x as usize * self.height as usize + y as usize, state, animations);
        true
    }

    /// Applies the pointer at pixel `(px, py)`: the cell under it, if any,
    /// becomes alive when `make_alive` holds, dead otherwise.
    pub fn handle_mouse(&mut self, px: i32, py: i32, make_alive: bool, animations: bool)
        requires
            old(self)@.wf(),
        ensures
            final(self)@ == old(self)@.edit(px as int, py as int, tool_state(make_alive), animations),
            final(self)@.wf(),
    {
        let ghost g = self@;
        let state = if make_alive {
            CellState::Alive
        } else {
            CellState::Dead
        };
        let hx = hit_axis(self.width, self.size, self.spare_x, px);
        let hy = hit_axis(self.height, self.size, self.spare_y, py);
        let ghost w = g.width as int;
        let ghost h = g.height as int;
        let ghost size = g.size as int;
        match (hx, hy) {
            (Some(x), Some(y)) => {
                let n: usize = self.cells.len();
                proof {
                    lemma_index(w, h, x as int, y as int);
                    assert(x * self.height <= x * self.height + y < n);
                }
                let k: usize = x as usize * self.height as usize + y as usize;
                self.set_cell_at(k, state, animations);
                proof {
                    assert forall|j: int| 0 <= j < g.cells.len() implies #[trigger] self@.cells[j]
                        == g.edited(px as int, py as int, state, animations)[j] by {
                        lemma_coords(w, h, j);
                        if inside(j / h, px as int, size, g.spare_x as int) && inside(
                            j % h,
                            py as int,
                            size,
                            g.spare_y as int,
                        ) {
                            lemma_inside_unique(j / h, x as int, px as int, size, g.spare_x as int);
                            lemma_inside_unique(j % h, y as int, py as int, size, g.spare_y as int);
                        }
                    }
                    assert(self@.cells =~= g.edited(px as int, py as int, state, animations));
                }
            },
            _ => {
                proof {
                    assert forall|j: int| 0 <= j < g.cells.len() implies #[trigger] self@.cells[j]
                        == g.edited(px as int, py as int, state, animations)[j] by {
                        lemma_coords(w, h, j);
                    }
                    assert(self@.cells =~= g.edited(px as int, py as int, state, animations));
                }
            },
        }
    }

    /// Applies a pointer drag from pixel `(prev_x, prev_y)` to `(x, y)`:
    /// every pixel of the segment between them, walked as [`plot_line`]
    /// walks it from `(x, y)`, is handled as [`Game::handle_mouse`] does, and
    /// then `(x, y)` once more. No cell that the pointer swept over is skipped.
    pub fn paint_stroke(
        &mut self,
        prev_x: i32,
        prev_y: i32,
        x: i32,
        y: i32,
        make_alive: bool,
        animations: bool,
    )
        requires
            old(self)@.wf(),
        ensures
            final(self)@ == old(self)@.edit_along(
                line(x as int, y as int, prev_x as int, prev_y as int),
                tool_state(make_alive),
                animations,
            ).edit(x as int, y as int, tool_state(make_alive), animations),
            final(self)@.wf(),
    {
        let ghost g = self@;
        let ghost s = tool_state(make_alive);
        let points = plot_line(x, y, prev_x, prev_y);
        let mut i: usize = 0;
        while i < points.len()
            invariant
                i <= points@.len(),
                s == tool_state(make_alive),
                self@.wf(),
                self@ == g.edit_along(points@.subrange(0, i as int), s, animations),
            decreases points@.len() - i,
        {
            let p = points[i];
            self.handle_mouse(p.x, p.y, make_alive, animations);
            proof {
                let pre = points@.subrange(0, i as int + 1);
                assert(pre.drop_last() =~= points@.subrange(0, i as int));
                assert(pre.last() == p);
            }
            i = i + 1;
        }
        assert(points@.subrange(0, points@.len() as int) =~= points@);
        self.handle_mouse(x, y, make_alive, animations);
    }

    /// Pauses or resumes; the grid lines fade in while paused and out while
    /// running.
    pub fn set_pause(&mut self, paused: bool)
        requires
            old(self)@.wf(),
        ensures
            final(self)@ == (GameView {
                paused,
                wanted_grid_alpha: grid_alpha_target(paused),
                ..old(self)@
            }),
            final(self)@.wf(),
    {
        self.paused = paused;
        if self.paused {
            self.wanted_grid_alpha = PAUSED_GRID_ALPHA;
        } else {
            self.wanted_grid_alpha = 0;
        }
    }

    /// Pauses a running game, resumes a paused one.
    pub fn toggle_pause(&mut self)
        requires
            old(self)@.wf(),
        ensures
            final(self)@ == (GameView {
                paused: !old(self)@.paused,
                wanted_grid_alpha: grid_alpha_target(!old(self)@.paused),
                ..old(self)@
            }),
            final(self)@.wf(),
    {
        let paused = !self.paused;
        self.set_pause(paused);
    }

    /// Sets the speed, in thousandths: the interval between ticks becomes
    /// `MAX_SPEED` less the speed clamped to `MIN_SPEED..=MAX_SPEED`.
    pub fn set_speed(&mut self, speed: u64)
        requires
            old(self)@.wf(),
        ensures
            final(self)@ == (GameView {
                interval: (MAX_SPEED - clamp_speed(speed as int)) as nat,
                ..old(self)@
            }),
            final(self)@.wf(),
    {
        let clamped: u64 = if speed < MIN_SPEED {
            MIN_SPEED
        } else if speed > MAX_SPEED {
            MAX_SPEED
        } else {
            speed
        };
        self.interval = MAX_SPEED - clamped;
    }

    /// Kills every cell.
    pub fn clear_screen(&mut self, animations: bool)
        requires
            old(self)@.wf(),
        ensures
            final(self)@ == (GameView {
                cells: Seq::new(
                    old(self)@.cells.len(),
                    |k: int| with_state(old(self)@.cells[k], CellState::Dead, animations),
                ),
                ..old(self)@
            }),
            final(self)@.wf(),
    {
        let ghost g = self@;
        let n = self.cells.len();
        let mut k: usize = 0;
        while k < n
            invariant
                g.wf(),
                n == g.cells.len(),
                k <= n,
                self@ == (GameView { cells: self@.cells, ..g }),
                self@.cells.len() == n,
                forall|j: int|
                    0 <= j < n ==> #[trigger] self@.cells[j] == if j < k {
                        with_state(g.cells[j], CellState::Dead, animations)
                    } else {
                        g.cells[j]
                    },
            decreases n - k,
        {
            self.set_cell_at(k, CellState::Dead, animations);
            k = k + 1;
        }
        assert(self@.cells =~= Seq::new(
            g.cells.len(),
            |k: int| with_state(g.cells[k], CellState::Dead, animations),
        ));
    }

    /// Restores the most recent snapshot of the history, if there is one,
    /// and drops it from the history. Returns whether there was one.
    pub fn go_back(&mut self, animations: bool) -> (r: bool)
        requires
            old(self)@.wf(),
        ensures
            r == (old(self)@.history.len() > 0),
            final(self)@ == old(self)@.rewound(animations),
            r ==> states(final(self)@.cells) == old(self)@.history.last(),
            final(self)@.wf(),
    {
        let ghost g = self@;
        match self.history.pop_latest() {
            None => {
                assert(self@ == g.rewound(animations));
                false
            },
            Some(board) => {
                let ghost g1 = self@;
                assert(board@.len() == g.cells.len());
                let n = self.cells.len();
                let mut k: usize = 0;
                while k < n
                    invariant
                        g1.wf(),
                        g1 == (GameView { history: g.history.drop_last(), ..g }),
                        board@ == g.history.last(),
                        n == g.cells.len(),
                        board@.len() == n,
                        k <= n,
                        self@ == (GameView { cells: self@.cells, ..g1 }),
                        self@.cells.len() == n,
                        forall|j: int|
                            0 <= j < n ==> #[trigger] self@.cells[j] == if j < k {
                                with_state(g.cells[j], board@[j], animations)
                            } else {
                                g.cells[j]
                            },
                    decreases n - k,
                {
                    self.set_cell_at(k, board[k], animations);
                    k = k + 1;
                }
                assert(self@.cells =~= Seq::new(
                    g.cells.len(),
                    |k: int| with_state(g.cells[k], g.history.last()[k], animations),
                ));
                assert(states(self@.cells) =~= g.history.last());
                assert(self@ == g.rewound(animations));
                true
            },
        }
    }

    /// Replaces the cell at index `k`.
    fn put(&mut self, k: usize, c: Cell)
        requires
            old(self)@.wf(),
            k < old(self)@.cells.len(),
            c@.wf(),
        ensures
            final(self)@ == (GameView { cells: old(self)@.cells.update(k as int, c@), ..old(self)@ }),
            final(self)@.wf(),
    {
        self.cells.set(k, c);
        assert(cell_views(self.cells@) =~= cell_views(old(self).cells@).update(k as int, c@));
    }

    /// Advances one frame at time `now` (milliseconds). The grid lines fade
    /// one step. If the game runs and the interval has passed since the last
    /// tick, the board is recorded in the history (when it holds a live
    /// cell), every cell is animated and then follows the rule, reading the
    /// board as it was before the tick, and the clock restarts at `now`.
    /// Otherwise every cell is only animated.
    pub fn update(&mut self, now: u64, animations: bool)
        requires
            old(self)@.wf(),
        ensures
            final(self)@ == old(self)@.updated(now as int, animations),
            final(self)@.wf(),
    {
        let ghost g = self@;
        self.grid_alpha = grid_fade_exec(self.grid_alpha, self.wanted_grid_alpha);
        let ghost g1 = self@;
        let n = self.cells.len();
        let due = !self.paused && now >= self.last_update && now - self.last_update
            >= self.interval;
        if !due {
            let mut k: usize = 0;
            while k < n
                invariant
                    g1.wf(),
                    n == g1.cells.len(),
                    k <= n,
                    self@ == (GameView { cells: self@.cells, ..g1 }),
                    self@.cells.len() == n,
                    forall|j: int|
                        0 <= j < n ==> #[trigger] self@.cells[j] == if j < k {
                            advanced(g1.cells[j])
                        } else {
                            g1.cells[j]
                        },
                decreases n - k,
            {
                let mut c = self.cells[k];
                assert(cell_views(self.cells@)[k as int] == self.cells@[k as int]@);
                assert(c@ == g1.cells[k as int]);
                c.update();
                self.put(k, c);
                k = k + 1;
            }
            assert(self@.cells =~= Seq::new(g.cells.len(), |k: int| advanced(g.cells[k])));
        } else {
            self.last_update = now;
            let board = snapshot(&self.cells);
            assert(board@ =~= states(g.cells));
            self.history.record_if_non_empty(&board);
            proof {
                let h2 = self@.history;
                assert forall|e: int| 0 <= e < h2.len() implies (#[trigger] h2[e]).len()
                    == g.cells.len() by {
                    if crate::life::any_alive(board@) {
                        if g.history.len() + 1 > HISTORY_CAP {
                            assert(h2[e] == g.history.push(board@)[e + 1]);
                        } else {
                            assert(h2[e] == g.history.push(board@)[e]);
                        }
                    }
                }
            }
            let ghost g2 = self@;
            let w = self.width;
            let h = self.height;
            let ghost next = step(board@, w as int, h as int);
            let mut k: usize = 0;
            while k < n
                invariant
                    g2.wf(),
                    g2.width == w,
                    g2.height == h,
                    n == g2.cells.len(),
                    board@ == states(g2.cells),
                    next == step(board@, w as int, h as int),
                    k <= n,
                    self@ == (GameView { cells: self@.cells, ..g2 }),
                    self@.cells.len() == n,
                    forall|j: int|
                        0 <= j < n ==> #[trigger] self@.cells[j] == if j < k {
                            with_state(advanced(g2.cells[j]), next[j], animations)
                        } else {
                            g2.cells[j]
                        },
                decreases n - k,
            {
                proof {
                    lemma_coords(w as int, h as int, k as int);
                }
                let x: u32 = (k / h as usize) as u32;
                let y: u32 = (k % h as usize) as u32;
                let amount = amount_around(&board, w, h, x, y);
                let mut c = self.cells[k];
                assert(cell_views(self.cells@)[k as int] == self.cells@[k as int]@);
                assert(c@ == g2.cells[k as int]);
                c.update();
                let state = next_state(board[k], amount);
                assert(state == next[k as int]);
                c.set_state(state, animations);
                self.put(k, c);
                k = k + 1;
            }
            assert(self@.cells =~= Seq::new(
                g.cells.len(),
                |k: int|
                    with_state(
                        advanced(g.cells[k]),
                        step(states(g.cells), g.width as int, g.height as int)[k],
                        animations,
                    ),
            ));
        }
    }
}

/// One frame of the grid-line fade.
fn grid_fade_exec(v: i64, t: i64) -> (r: i64)
    requires
        -ANIM_SCALE <= v <= ANIM_SCALE,
        0 <= t <= ANIM_SCALE,
    ensures
        r == grid_fade(v as int, t as int),
        -ANIM_SCALE <= r <= ANIM_SCALE,
{
    if t >= v {
        v + (t - v) * 2 / 15
    } else {
        v - (v - t) * 2 / 15
    }
}

} // verus!

verus! {

/// On a tick the lifecycle states follow the rule, and nothing else.
pub proof fn lemma_tick_states(g: GameView, now: int, animate: bool)
    requires
        g.ticks(now),
    ensures
        states(g.updated(now, animate).cells) == step(
            states(g.cells),
            g.width as int,
            g.height as int,
        ),
{
    assert(states(g.updated(now, animate).cells) =~= step(
        states(g.cells),
        g.width as int,
        g.height as int,
    ));
}

/// A tick of a board that holds a live cell, followed at once by a rewind,
/// restores the lifecycle states from before the tick.
pub proof fn lemma_rewind_after_tick(g: GameView, now: int, a1: bool, a2: bool)
    requires
        g.wf(),
        g.ticks(now),
        any_alive(states(g.cells)),
    ensures
        g.updated(now, a1).history.len() > 0,
        states(g.updated(now, a1).rewound(a2).cells) == states(g.cells),
{
    let u = g.updated(now, a1);
    crate::history::lemma_record_then_pop(g.history, states(g.cells));
    assert(states(u.rewound(a2).cells) =~= states(g.cells));
}

/// The game after frames at each of `times`, in order.
pub open spec fn run_frames(g: GameView, times: Seq<int>, animate: bool) -> GameView
    decreases times.len(),
{
    if times.len() == 0 {
        g
    } else {
        run_frames(g, times.drop_last(), animate).updated(times.last(), animate)
    }
}

/// The next lifecycle states depend on the current lifecycle states alone:
/// neither on the animation of the cells nor on anything else of the game.
pub proof fn lemma_tick_deterministic(
    g1: GameView,
    g2: GameView,
    now1: int,
    now2: int,
    a1: bool,
    a2: bool,
)
    requires
        g1.ticks(now1),
        g2.ticks(now2),
        g1.width == g2.width,
        g1.height == g2.height,
        states(g1.cells) == states(g2.cells),
    ensures
        states(g1.updated(now1, a1).cells) == states(g2.updated(now2, a2).cells),
{
    lemma_tick_states(g1, now1, a1);
    lemma_tick_states(g2, now2, a2);
}

/// Frames of a board without live cells, however many, record nothing and
/// leave the board without live cells.
pub proof fn lemma_empty_grid_records_nothing(g: GameView, times: Seq<int>, animate: bool)
    requires
        g.cells.len() == g.width * g.height,
        !any_alive(states(g.cells)),
    ensures
        run_frames(g, times, animate).history == g.history,
        !any_alive(states(run_frames(g, times, animate).cells)),
        run_frames(g, times, animate).cells.len() == g.cells.len(),
        run_frames(g, times, animate).width == g.width,
        run_frames(g, times, animate).height == g.height,
    decreases times.len(),
{
    if times.len() > 0 {
        lemma_empty_grid_records_nothing(g, times.drop_last(), animate);
        let r = run_frames(g, times.drop_last(), animate);
        lemma_empty_tick_records_nothing(r, times.last(), animate);
    }
}

/// A frame of a board without live cells records nothing, and leaves the
/// board without live cells.
pub proof fn lemma_empty_tick_records_nothing(g: GameView, now: int, animate: bool)
    requires
        g.cells.len() == g.width * g.height,
        !any_alive(states(g.cells)),
    ensures
        g.updated(now, animate).history == g.history,
        !any_alive(states(g.updated(now, animate).cells)),
        g.updated(now, animate).cells.len() == g.cells.len(),
{
    if g.ticks(now) {
        lemma_tick_states(g, now, animate);
        crate::life::lemma_empty_stays_empty(states(g.cells), g.width as int, g.height as int);
    } else {
        let u = g.updated(now, animate);
        assert(states(u.cells) =~= states(g.cells));
    }
}

} // verus!
