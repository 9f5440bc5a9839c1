//! The fixed numbers of the game.

use vstd::prelude::*;

verus! {

/// Width of the character grid, in columns.
pub const SCREEN_WIDTH: i32 = 80;

/// Height of the character grid, in rows.
pub const SCREEN_HEIGHT: i32 = 50;

/// Time between two physics steps, in microseconds (75 ms).
pub const FRAME_DURATION: u64 = 75_000;

/// Column at which the player is drawn, whatever its world position.
pub const PLAYER_SCREEN_X: i32 = 10;

/// World distance between two consecutive obstacles.
pub const DIST_BETWEEN: i32 = 50;

/// Row on which a new player starts.
pub const START_ROW: i32 = 25;

/// Velocities are counted in this many parts of one row per physics step.
pub const VELOCITY_SCALE: i32 = 10;

/// What one physics step adds to the velocity (0.2 rows per step).
pub const GRAVITY: i32 = 2;

/// Fastest fall (2.0 rows per step); gravity stops adding here.
pub const TERMINAL_VELOCITY: i32 = 20;

/// Velocity right after a flap (2.0 rows per step, upward).
pub const FLAP_VELOCITY: i32 = -20;

/// Smallest row a gap can be centred on.
pub const GAP_ROW_MIN: i32 = 10;

/// First row above which no gap is centred (the bound is exclusive).
pub const GAP_ROW_END: i32 = 40;

/// Height of the gap at score zero.
pub const GAP_SIZE_START: i32 = 20;

/// Height below which the gap never shrinks.
pub const GAP_SIZE_MIN: i32 = 2;

} // verus!
