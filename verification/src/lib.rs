//! Conway's Game of Life on a toroidal grid.
//!
//! A board is a flat, row-major sequence of booleans of length
//! `width * height`; the cell at column `x`, row `y` sits at index
//! `y * width + x`. Coordinates wrap at the edges, so the leftmost column is
//! adjacent to the rightmost and the top row to the bottom row. The
//! generation engine ([`engine::step`]) is a pure function from one board to
//! the next under the classic rules; it never mutates its input.

pub mod engine;
pub mod laws;
pub mod render;
pub mod seed;


