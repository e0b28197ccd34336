//! Conway's Game of Life on a fixed-size grid with open (non-wrapping)
//! boundaries, together with the phase machine that sizes, seeds and
//! advances it.
pub mod driver;
pub mod grid;
pub mod laws;
pub mod random;
pub mod states;
