use vstd::prelude::*;

verus! {

/// Width of the playing field, in cells.
pub const GRID_WIDTH: i32 = 30;

/// Height of the playing field, in cells.
pub const GRID_HEIGHT: i32 = 30;

/// Side of one square cell, in pixels.
pub const GRID_CELL_DIM: i32 = 25;

/// Width of the screen, in pixels.
pub const SCREEN_WIDTH: i32 = GRID_WIDTH * GRID_CELL_DIM;

/// Height of the screen, in pixels.
pub const SCREEN_HEIGHT: i32 = GRID_HEIGHT * GRID_CELL_DIM;

/// Simulation steps per second.
pub const FRAMES_PER_SECOND: u64 = 12;

/// Minimum time between two simulation steps, in milliseconds.
pub const MILLIS_PER_FRAME: u64 = 1000 / FRAMES_PER_SECOND;

} // verus!
