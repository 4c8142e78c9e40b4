//! Conway's Game of Life on a toroidal grid whose cells are stored one bit each.
//!
//! - `model` is the grid as a mathematical value: indexing, the neighbour count on the torus
//!   and the rule that makes the next generation.
//! - `laws` proves what holds of every grid.
//! - `universe` is the executable grid, whose contracts are stated over the model.
//! - `bitset` is the interface to the packed storage that the grid keeps its cells in.
//! - `cell` and `error` hold the state of a cell and the reasons for a refusal.

pub mod bitset;
pub mod cell;
pub mod error;
pub mod laws;
pub mod model;
pub mod universe;

pub use cell::Cell;
pub use error::GridError;
pub use universe::Universe;
