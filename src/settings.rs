//! The user's settings, and the per-frame decisions that the host's loop
//! takes on them.
use vstd::prelude::*;

verus! {

/// Delay before a held rewind input repeats, in milliseconds.
pub const REWIND_FIRST_DELAY: u64 = 500;

/// Delay between repeats of a held rewind input, in milliseconds.
pub const REWIND_REPEAT_DELAY: u64 = 100;

/// The settings that the menu edits and the host and the game read.
#[derive(Debug, Clone, Copy, PartialEq, Eq)]
pub struct Settings {
    /// Whether the pointer is over the menu, so that it must not edit cells.
    pub mouse_over: bool,
    /// Simulation speed in thousandths, from `MIN_SPEED` to `MAX_SPEED`.
    pub speed: u64,
    pub animate_while_sim: bool,
    pub animate: bool,
    /// Edge length of a cell in pixels, as applied to the grid.
    pub size: u32,
    /// Edge length of a cell in pixels, as the slider shows it while dragged.
    pub real_size: u32,
    /// A request to clear the grid.
    pub clear_screen: bool,
    pub paused: bool,
    /// Whether the pointer buttons' tools are swapped.
    pub swap_buttons: bool,
    /// Whether pointer drags skip the pixels between samples.
    pub reduce_lag: bool,
    pub touch_buttons: bool,
    /// A request to rewind one step.
    pub back_generation: bool,
}

impl Settings {
    pub fn new() -> (s: Settings)
        ensures
            s == (Settings {
                mouse_over: false,
                speed: 750,
                animate_while_sim: true,
                animate: true,
                size: 20,
                real_size: 20,
                clear_screen: false,
                paused: true,
                swap_buttons: false,
                reduce_lag: false,
                touch_buttons: false,
                back_generation: false,
            }),
    {
        Settings {
            mouse_over: false,
            speed: 750,
            animate_while_sim: true,
            size: 20,
            real_size: 20,
            clear_screen: false,
            paused: true,
            swap_buttons: false,
            animate: true,
            reduce_lag: false,
            touch_buttons: false,
            back_generation: false,
        }
    }

    /// Whether cell changes animate this frame: while paused as the
    /// animation setting says; while running only if animations are on and
    /// also enabled while simulating.
    pub fn frame_animations(&self) -> (r: bool)
        ensures
            r == if self.paused {
                self.animate
            } else {
                self.animate && self.animate_while_sim
            },
    {
        if self.paused {
            self.animate
        } else if !self.animate {
            false
        } else {
            self.animate_while_sim
        }
    }

    /// Whether a press of the primary (`primary`) or the secondary button
    /// creates cells: the primary creates and the secondary removes, unless
    /// the tools are swapped.
    pub fn creates(&self, primary: bool) -> (r: bool)
        ensures
            r == (primary != self.swap_buttons),
    {
        if !self.swap_buttons {
            primary
        } else {
            !primary
        }
    }
}

/// Repeat of a held rewind input: one step at once, the next after
/// `REWIND_FIRST_DELAY`, then one every `REWIND_REPEAT_DELAY`.
#[derive(Debug, Clone, Copy, PartialEq, Eq)]
pub struct RewindRepeat {
    /// When the last step was taken while the input has been held.
    pub last: Option<u64>,
    /// Whether only the first step has been taken so far.
    pub first: bool,
}

/// Whether a poll at `now` with the input `held` takes a step.
pub open spec fn rewind_fires(r: RewindRepeat, held: bool, now: int) -> bool {
    held && match r.last {
        None => true,
        Some(t) => now > t + if r.first {
            REWIND_FIRST_DELAY
        } else {
            REWIND_REPEAT_DELAY
        },
    }
}

/// The state after a poll at `now` with the input `held`.
pub open spec fn rewind_next(r: RewindRepeat, held: bool, now: u64) -> RewindRepeat {
    if !held {
        RewindRepeat { last: None, ..r }
    } else if rewind_fires(r, held, now as int) {
        RewindRepeat { last: Some(now), first: r.last is None }
    } else {
        r
    }
}

impl RewindRepeat {
    /// The input is not held.
    pub fn new() -> (r: RewindRepeat)
        ensures
            r.last is None,
            !r.first,
    {
        RewindRepeat { last: None, first: false }
    }

    /// Polls the input at time `now` (milliseconds); returns whether a
    /// rewind step is due.
    pub fn poll(&mut self, held: bool, now: u64) -> (fire: bool)
        ensures
            fire == rewind_fires(*old(self), held, now as int),
            *final(self) == rewind_next(*old(self), held, now),
    {
        if !held {
            self.last = None;
            return false;
        }
        match self.last {
            None => {
                self.first = true;
                self.last = Some(now);
                true
            },
            Some(t) => {
                let delay: u64 = if self.first {
                    REWIND_FIRST_DELAY
                } else {
                    REWIND_REPEAT_DELAY
                };
                if now > t && now - t > delay {
                    self.first = false;
                    self.last = Some(now);
                    true
                } else {
                    false
                }
            },
        }
    }
}

} // verus!
