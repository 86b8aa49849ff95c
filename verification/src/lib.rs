//! Conway's Game of Life on a fixed-size toroidal grid.
//!
//! The grid wraps around at its edges: the last row and column are adjacent
//! to the first. Each call to [`universe::Universe::tick`] advances the whole
//! grid by one generation under the standard birth/survival rule, computed
//! against a snapshot of the prior generation.

pub mod cell;
pub mod laws;
pub mod rules;
pub mod universe;
