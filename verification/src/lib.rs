//! Conway's Game of Life on a toroidal (wrap-around) grid: a bit-packed,
//! double-buffered engine with verified neighbour counting, generation
//! stepping and pattern stamping.

pub mod bits;
pub mod grid;
pub mod laws;
pub mod model;

pub use grid::GridError;
pub use grid::Universe;
