//! A Game of Life universe on a torus: a fixed-size grid of two-valued cells
//! that is advanced one generation at a time under the B3/S23 rule.
//!
//! `grid` holds the mathematical model, `universe` the executable grid whose
//! contracts are stated over it, and `laws` what is proved of the model.

pub mod cell;
pub mod error;
pub mod greeting;
pub mod grid;
pub mod laws;
pub mod pattern;
pub mod universe;

pub use cell::Cell;
pub use error::UniverseError;
pub use greeting::greet;
pub use universe::Universe;
