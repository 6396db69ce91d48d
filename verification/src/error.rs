//! The ways in which an operation on a universe is refused.

use vstd::prelude::*;

verus! {

/// Why an operation left the universe as it was.
#[derive(Clone, Copy, Debug, PartialEq, Eq, Structural)]
pub enum UniverseError {
    /// A coordinate lies outside the grid.
    OutOfBounds,
    /// A dimension of zero was asked for, or dimensions with more cells than
    /// a universe can hold.
    InvalidDimensions,
}

} // verus!
