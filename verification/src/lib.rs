//! A verified core for a terminal Game of Life: a fixed-size boolean grid
//! with the standard Life rule on a clamped (non-wrapping) boundary, a
//! run-length renderer for the grid, and the frame scheduler that decides,
//! per frame, whether to redraw, advance, reseed, or stop.

pub mod board;
pub mod laws;
pub mod scheduler;
