//! The lightship: the fixed block of cells that `create_lightship` stamps.

use vstd::prelude::*;
use crate::cell::Cell;

verus! {

/// The number of rows of the lightship.
pub const LIGHTSHIP_ROWS: u32 = 4;

/// The number of columns of the lightship.
pub const LIGHTSHIP_COLS: u32 = 5;

/// The lightship, row by row from the top:
///
/// ```text
/// . # . . #
/// # . . . .
/// # . . . #
/// # # # # .
/// ```
pub open spec fn lightship() -> Seq<Seq<Cell>> {
    seq![
        seq![Cell::Dead, Cell::Alive, Cell::Dead, Cell::Dead, Cell::Alive],
        seq![Cell::Alive, Cell::Dead, Cell::Dead, Cell::Dead, Cell::Dead],
        seq![Cell::Alive, Cell::Dead, Cell::Dead, Cell::Dead, Cell::Alive],
        seq![Cell::Alive, Cell::Alive, Cell::Alive, Cell::Alive, Cell::Dead],
    ]
}

/// The cell in row `i` and column `j` of the lightship.
pub fn lightship_cell(i: u32, j: u32) -> (cell: Cell)
    requires
        i < LIGHTSHIP_ROWS,
        j < LIGHTSHIP_COLS,
    ensures
        cell == lightship()[i as int][j as int],
{
    match (i, j) {
        (0, 1) | (0, 4) => Cell::Alive,
        (1, 0) => Cell::Alive,
        (2, 0) | (2, 4) => Cell::Alive,
        (3, 0) | (3, 1) | (3, 2) | (3, 3) => Cell::Alive,
        _ => Cell::Dead,
    }
}

} // verus!
