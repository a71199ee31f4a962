//! Rules-and-state engine for a falling-block puzzle game.
//!
//! The library owns every gameplay invariant: the seven-piece shape
//! catalog, the bag randomizer, piece movement and rotation with wall
//! kicks, board collision and line clearing, and the timing, scoring
//! and leveling state machine. Rendering and persistence are left to
//! the host, which drives the engine through integer frame deltas and
//! plain commands.

pub mod bag;
pub mod board;
pub mod constants;
pub mod game;
pub mod tetromino;
