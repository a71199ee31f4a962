//! Fixed dimensions, timing thresholds and score values of the game rules.

use vstd::prelude::*;

verus! {

/// Number of columns of the playfield.
pub const GRID_WIDTH: usize = 10;

/// Number of rows of the playfield; row 0 is the top.
pub const GRID_HEIGHT: usize = 20;

/// Milliseconds a piece rests at level 1 before gravity pulls it one row
/// down; the interval shrinks as the level rises.
pub const FALL_INTERVAL_MS: u32 = 1000;

/// Milliseconds between gravity steps while the soft-drop key is held.
pub const SOFT_DROP_INTERVAL_MS: u32 = 50;

/// Milliseconds a grounded piece may still be steered before it locks.
pub const LOCK_DELAY_MS: u32 = 500;

/// Milliseconds the line-clear animation runs before full rows vanish.
pub const LINE_CLEAR_ANIMATION_MS: u32 = 300;

/// Base score for clearing one row, multiplied by the level.
pub const SCORE_SINGLE: u32 = 100;

/// Base score for clearing two rows at once, multiplied by the level.
pub const SCORE_DOUBLE: u32 = 300;

/// Base score for clearing three rows at once, multiplied by the level.
pub const SCORE_TRIPLE: u32 = 500;

/// Base score for clearing four rows at once, multiplied by the level.
pub const SCORE_TETRIS: u32 = 800;

/// Points awarded per row descended while soft-dropping.
pub const SCORE_SOFT_DROP: u32 = 1;

/// Points awarded per row descended by a hard drop.
pub const SCORE_HARD_DROP: u32 = 2;

} // verus!
