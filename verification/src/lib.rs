//! A side-scrolling obstacle course on a character grid.
//!
//! A bird falls under gravity, flaps on demand and has to pass through the
//! gaps of a stream of walls.  The crate holds the whole rule set of the game
//! as a state machine: every frame the host hands in the key that was pressed
//! and the time that went by, and gets back the list of drawing commands for
//! that frame.  Positions are whole grid cells, velocities are counted in
//! tenths of a row per physics step and time in microseconds, so every rule
//! is stated over integers.

pub mod config;
pub mod draw;
pub mod math;
pub mod obstacle;
pub mod player;
pub mod state;
pub mod text;
