//! Conway's Game of Life on a bounded grid: the simulation core.
//!
//! Everything here works on integers. Lengths are whole pixels, times are
//! milliseconds, and animated quantities are fixed-point fractions of
//! `cell::ANIM_SCALE`.
pub mod geometry;
pub mod line;
pub mod cell;
pub mod life;
pub mod history;
pub mod game;
pub mod settings;
