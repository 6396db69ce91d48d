//! The state of one cell, and the rule that takes it to the next generation.

use vstd::prelude::*;

verus! {

/// One cell of the grid. There is no third state.
#[derive(Clone, Copy, Debug, PartialEq, Eq, Structural)]
pub enum Cell {
    Dead,
    Alive,
}

impl Cell {
    /// The other state.
    pub open spec fn flipped(self) -> Cell {
        match self {
            Cell::Dead => Cell::Alive,
            Cell::Alive => Cell::Dead,
        }
    }

    /// What the cell adds to the count of a neighbor: 1 if alive, 0 if dead.
    pub open spec fn population(self) -> nat {
        match self {
            Cell::Dead => 0,
            Cell::Alive => 1,
        }
    }

    /// The character that stands for the cell in a rendering: a hollow
    /// square for a dead cell, a filled square for a live one.
    pub open spec fn glyph(self) -> char {
        match self {
            Cell::Dead => '\u{25FB}',
            Cell::Alive => '\u{25FC}',
        }
    }

    /// Flips the cell in place.
    pub fn toggle(&mut self)
        ensures
            *final(self) == old(self).flipped(),
    {
        *self = match *self {
            Cell::Dead => Cell::Alive,
            Cell::Alive => Cell::Dead,
        };
    }

    /// The cell's glyph as a string of one character.
    pub fn symbol(self) -> (s: &'static str)
        ensures
            s@ == seq![self.glyph()],
    {
        proof {
            reveal_strlit("\u{25FB}");
            reveal_strlit("\u{25FC}");
        }
        match self {
            Cell::Dead => "\u{25FB}",
            Cell::Alive => "\u{25FC}",
        }
    }

    /// The cell as a number: 0 for dead, 1 for alive.
    pub fn as_u8(self) -> (n: u8)
        ensures
            n == self.population(),
    {
        match self {
            Cell::Dead => 0,
            Cell::Alive => 1,
        }
    }
}

/// The B3/S23 rule: the state that a cell in state `cell` with `live_neighbors`
/// live neighbors has in the next generation.
///
/// A live cell with fewer than two live neighbors dies, one with two or three
/// lives on, one with more than three dies; a dead cell with exactly three
/// comes alive; everything else stays as it is.
pub open spec fn next_state(cell: Cell, live_neighbors: int) -> Cell {
    match cell {
        Cell::Alive => if live_neighbors == 2 || live_neighbors == 3 {
            Cell::Alive
        } else {
            Cell::Dead
        },
        Cell::Dead => if live_neighbors == 3 {
            Cell::Alive
        } else {
            Cell::Dead
        },
    }
}

/// Applies the rule to one cell.
pub fn evolve(cell: Cell, live_neighbors: u8) -> (next: Cell)
    ensures
        next == next_state(cell, live_neighbors as int),
{
    match (cell, live_neighbors) {
        (Cell::Alive, x) if x < 2 => Cell::Dead,
        (Cell::Alive, 2) | (Cell::Alive, 3) => Cell::Alive,
        (Cell::Alive, x) if x > 3 => Cell::Dead,
        (Cell::Dead, 3) => Cell::Alive,
        (otherwise, _) => otherwise,
    }
}

} // verus!
