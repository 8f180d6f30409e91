//! A single automaton cell: its lifecycle state and its animated appearance.
use vstd::prelude::*;

verus! {

/// Fixed-point unit of the animated quantities: `ANIM_SCALE` stands for 1.
pub const ANIM_SCALE: i64 = 10000;

/// Per frame, the shrink factor moves by this fraction of its remaining distance.
pub const SHRINK_DIVISOR: i64 = 5;

/// Per frame, the opacity moves by this fraction of its remaining distance.
pub const ALPHA_DIVISOR: i64 = 10;

/// Lifecycle state of a cell.
#[derive(Debug, Clone, Copy, PartialEq, Eq, Structural)]
pub enum CellState {
    Alive,
    Dead,
}

/// A cell of the grid.
///
/// Its drawn square is shrunk towards its top-right corner by `shrink`
/// (0: full square, `ANIM_SCALE`: vanished), and painted with opacity
/// `alpha` (0: transparent, `ANIM_SCALE`: opaque).
#[derive(Debug, Clone, Copy)]
pub struct Cell {
    state: CellState,
    shrink: i64,
    alpha: i64,
}

/// The mathematical content of a [`Cell`].
pub struct CellView {
    pub state: CellState,
    pub shrink: int,
    pub alpha: int,
}

impl View for Cell {
    type V = CellView;

    closed spec fn view(&self) -> CellView {
        CellView { state: self.state, shrink: self.shrink as int, alpha: self.alpha as int }
    }
}

/// The shrink factor that the animation of a cell in state `s` heads for.
pub open spec fn target_shrink(s: CellState) -> int {
    match s {
        CellState::Alive => 0,
        CellState::Dead => ANIM_SCALE as int,
    }
}

/// The opacity that the animation of a cell in state `s` heads for.
pub open spec fn target_alpha(s: CellState) -> int {
    match s {
        CellState::Alive => ANIM_SCALE as int,
        CellState::Dead => 0,
    }
}

/// One step of an exponential ease from `v` towards `t`: the distance shrinks
/// by its `div`-th part, rounded towards zero.
pub open spec fn ease(v: int, t: int, div: int) -> int {
    if t >= v {
        v + (t - v) / div
    } else {
        v - (v - t) / div
    }
}

pub open spec fn in_unit(v: int) -> bool {
    0 <= v <= ANIM_SCALE
}

/// A cell after one frame of animation.
pub open spec fn advanced(c: CellView) -> CellView {
    CellView {
        state: c.state,
        shrink: ease(c.shrink, target_shrink(c.state), SHRINK_DIVISOR as int),
        alpha: ease(c.alpha, target_alpha(c.state), ALPHA_DIVISOR as int),
    }
}

/// A cell after being set to state `s`. A cell already in that state is
/// unchanged; otherwise, without animation, the shrink factor jumps to its
/// new target.
pub open spec fn with_state(c: CellView, s: CellState, animate: bool) -> CellView {
    if c.state == s {
        c
    } else if animate {
        CellView { state: s, ..c }
    } else {
        CellView { state: s, shrink: target_shrink(s), ..c }
    }
}

impl CellView {
    pub open spec fn wf(self) -> bool {
        in_unit(self.shrink) && in_unit(self.alpha)
    }
}

/// One eased step: never overshoots the target, never reaches it from a
/// different value, and never moves away from it.
pub proof fn lemma_ease_approaches(v: int, t: int, div: int)
    requires
        div > 1,
    ensures
        t >= v ==> v <= ease(v, t, div) <= t,
        t < v ==> t <= ease(v, t, div) <= v,
        v != t ==> ease(v, t, div) != t,
{
    if t >= v {
        vstd::arithmetic::div_mod::lemma_div_is_ordered_by_denominator(t - v, 1, div);
        if t > v {
            vstd::arithmetic::div_mod::lemma_div_decreases(t - v, div);
        }
    } else {
        vstd::arithmetic::div_mod::lemma_div_is_ordered_by_denominator(v - t, 1, div);
        vstd::arithmetic::div_mod::lemma_div_decreases(v - t, div);
    }
}

fn ease_exec(v: i64, t: i64, div: i64) -> (r: i64)
    requires
        in_unit(v as int),
        in_unit(t as int),
        div > 1,
    ensures
        r == ease(v as int, t as int, div as int),
        in_unit(r as int),
{
    proof {
        lemma_ease_approaches(v as int, t as int, div as int);
    }
    if t >= v {
        v + (t - v) / div
    } else {
        v - (v - t) / div
    }
}

impl Cell {
    /// A dead cell, fully shrunk and transparent.
    pub fn new() -> (c: Cell)
        ensures
            c@ == (CellView { state: CellState::Dead, shrink: ANIM_SCALE as int, alpha: 0 }),
    {
        Cell { state: CellState::Dead, shrink: ANIM_SCALE, alpha: 0 }
    }

    pub fn state(&self) -> (r: CellState)
        ensures
            r == self@.state,
    {
        self.state
    }

    pub fn is_alive(&self) -> (r: bool)
        ensures
            r == (self@.state == CellState::Alive),
    {
        self.state == CellState::Alive
    }

    /// The shrink factor, in units of `ANIM_SCALE`.
    pub fn shrink(&self) -> (r: i64)
        ensures
            r == self@.shrink,
    {
        self.shrink
    }

    /// The opacity, in units of `ANIM_SCALE`.
    pub fn alpha(&self) -> (r: i64)
        ensures
            r == self@.alpha,
    {
        self.alpha
    }

    /// Advances the animation by one frame.
    pub fn update(&mut self)
        requires
            old(self)@.wf(),
        ensures
            final(self)@ == advanced(old(self)@),
            final(self)@.wf(),
    {
        self.shrink = ease_exec(self.shrink, target_shrink_exec(self.state), SHRINK_DIVISOR);
        self.alpha = ease_exec(self.alpha, target_alpha_exec(self.state), ALPHA_DIVISOR);
    }

    /// Makes the cell dead; without `animations` its shape jumps to the end
    /// of the transition at once.
    pub fn kill(&mut self, animations: bool)
        requires
            old(self)@.wf(),
        ensures
            final(self)@ == with_state(old(self)@, CellState::Dead, animations),
            final(self)@.wf(),
    {
        if self.state != CellState::Dead {
            self.state = CellState::Dead;
            if !animations {
                self.shrink = ANIM_SCALE;
            }
        }
    }

    /// Makes the cell alive; without `animations` its shape jumps to the end
    /// of the transition at once.
    pub fn live(&mut self, animations: bool)
        requires
            old(self)@.wf(),
        ensures
            final(self)@ == with_state(old(self)@, CellState::Alive, animations),
            final(self)@.wf(),
    {
        if self.state != CellState::Alive {
            self.state = CellState::Alive;
            if !animations {
                self.shrink = 0;
            }
        }
    }

    /// Sets the cell to `state`, as [`Cell::live`] or [`Cell::kill`] does.
    pub fn set_state(&mut self, state: CellState, animations: bool)
        requires
            old(self)@.wf(),
        ensures
            final(self)@ == with_state(old(self)@, state, animations),
            final(self)@.wf(),
    {
        match state {
            CellState::Alive => self.live(animations),
            CellState::Dead => self.kill(animations),
        }
    }
}

fn target_shrink_exec(s: CellState) -> (r: i64)
    ensures
        r == target_shrink(s),
{
    match s {
        CellState::Alive => 0,
        CellState::Dead => ANIM_SCALE,
    }
}

fn target_alpha_exec(s: CellState) -> (r: i64)
    ensures
        r == target_alpha(s),
{
    match s {
        CellState::Alive => ANIM_SCALE,
        CellState::Dead => 0,
    }
}

} // verus!
