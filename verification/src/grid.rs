//! The mathematical model of a universe: a torus of cells in row-major order.
//!
//! Everything here is specification. The executable `Universe` has a `Grid` as
//! its view, and its contracts are stated over the functions of this module.

use vstd::prelude::*;
use vstd::arithmetic::div_mod::{lemma_fundamental_div_mod, lemma_fundamental_div_mod_converse};
use crate::cell::{Cell, next_state};
use crate::pattern::lightship;

verus! {

/// A grid of `height` rows and `width` columns. The cell in row `row` and
/// column `col` stands at `row * width + col` in `cells`.
#[verifier::ext_equal]
pub struct Grid {
    pub width: nat,
    pub height: nat,
    pub cells: Seq<Cell>,
}

impl Grid {
    /// Both dimensions are positive and there is one cell per coordinate.
    pub open spec fn wf(self) -> bool {
        &&& self.width > 0
        &&& self.height > 0
        &&& self.cells.len() == self.width * self.height
    }

    /// Whether `(row, col)` is a coordinate of the grid.
    pub open spec fn in_bounds(self, row: int, col: int) -> bool {
        0 <= row < self.height && 0 <= col < self.width
    }

    /// The place of `(row, col)` in `cells`.
    pub open spec fn index(self, row: int, col: int) -> int {
        row * self.width + col
    }

    /// The row that the cell at place `i` of `cells` stands in.
    pub open spec fn row_of(self, i: int) -> int {
        i / (self.width as int)
    }

    /// The column that the cell at place `i` of `cells` stands in.
    pub open spec fn col_of(self, i: int) -> int {
        i % (self.width as int)
    }

    /// The cell at `(row, col)`.
    pub open spec fn cell(self, row: int, col: int) -> Cell {
        self.cells[self.index(row, col)]
    }

    /// `row` shifted by `delta` rows, wrapping around the edge.
    pub open spec fn wrap_row(self, row: int, delta: int) -> int {
        (row + delta) % (self.height as int)
    }

    /// `col` shifted by `delta` columns, wrapping around the edge.
    pub open spec fn wrap_col(self, col: int, delta: int) -> int {
        (col + delta) % (self.width as int)
    }

    /// The eight neighbors of `(row, col)` on the torus, row by row from the
    /// one above and to the left. The shift by -1 is taken as a shift by
    /// `height - 1` (`width - 1`), so no intermediate value is negative. On a
    /// grid with fewer than three rows or columns a coordinate occurs more
    /// than once.
    pub open spec fn neighbors(self, row: int, col: int) -> Seq<(int, int)> {
        let up = self.wrap_row(row, self.height - 1);
        let mid = self.wrap_row(row, 0);
        let down = self.wrap_row(row, 1);
        let left = self.wrap_col(col, self.width - 1);
        let center = self.wrap_col(col, 0);
        let right = self.wrap_col(col, 1);
        seq![
            (up, left),
            (up, center),
            (up, right),
            (mid, left),
            (mid, right),
            (down, left),
            (down, center),
            (down, right),
        ]
    }

    /// 1 if the cell at `at` is alive, 0 if it is dead.
    pub open spec fn population(self, at: (int, int)) -> nat {
        self.cell(at.0, at.1).population()
    }

    /// The number of live cells among the eight neighbors of `(row, col)`,
    /// each counted as often as it occurs among them.
    pub open spec fn live_neighbors(self, row: int, col: int) -> nat {
        let n = self.neighbors(row, col);
        self.population(n[0]) + self.population(n[1]) + self.population(n[2])
            + self.population(n[3]) + self.population(n[4]) + self.population(n[5])
            + self.population(n[6]) + self.population(n[7])
    }

    /// The grid of the given size in which every cell is dead.
    pub open spec fn dead(width: nat, height: nat) -> Grid {
        Grid { width, height, cells: Seq::new(width * height, |i: int| Cell::Dead) }
    }

    /// The grid of the given size in which the cell at place `i` is alive if
    /// and only if 2 or 7 divides `i`.
    pub open spec fn seeded(width: nat, height: nat) -> Grid {
        Grid { width, height, cells: Seq::new(width * height, |i: int| seed_cell(i)) }
    }

    /// This grid with the cell at `(row, col)` flipped.
    pub open spec fn toggled(self, row: int, col: int) -> Grid {
        Grid {
            width: self.width,
            height: self.height,
            cells: self.cells.update(self.index(row, col), self.cell(row, col).flipped()),
        }
    }

    /// Whether every coordinate of `coords` is a coordinate of the grid.
    pub open spec fn all_in_bounds(self, coords: Seq<(u32, u32)>) -> bool {
        forall|k: int|
            0 <= k < coords.len() ==> self.in_bounds(
                (#[trigger] coords[k]).0 as int,
                coords[k].1 as int,
            )
    }

    /// This grid with every coordinate of `coords` alive and all other cells
    /// as they are.
    pub open spec fn with_alive(self, coords: Seq<(u32, u32)>) -> Grid {
        Grid {
            width: self.width,
            height: self.height,
            cells: Seq::new(
                self.cells.len(),
                |i: int|
                    if lists(coords, self.row_of(i), self.col_of(i)) {
                        Cell::Alive
                    } else {
                        self.cells[i]
                    },
            ),
        }
    }

    /// Whether the lightship centered at `(row, col)` lies within the grid:
    /// one row above the center and two below, two columns to either side.
    pub open spec fn lightship_fits(self, row: int, col: int) -> bool {
        1 <= row && row + 2 < self.height && 2 <= col && col + 2 < self.width
    }

    /// This grid with the lightship written over the cells around `(row, col)`.
    pub open spec fn with_lightship(self, row: int, col: int) -> Grid {
        Grid {
            width: self.width,
            height: self.height,
            cells: Seq::new(
                self.cells.len(),
                |i: int|
                    if under_lightship(row, col, self.row_of(i), self.col_of(i)) {
                        lightship()[self.row_of(i) - row + 1][self.col_of(i) - col + 2]
                    } else {
                        self.cells[i]
                    },
            ),
        }
    }

    /// The character at place `i` of the rendering: in each stretch of
    /// `width + 1` characters, the glyphs of one row and then a line break.
    pub open spec fn rendered_char(self, i: int) -> char {
        let stride = self.width as int + 1;
        let line = i / stride;
        let column = i % stride;
        if column == self.width {
            '\n'
        } else {
            self.cell(line, column).glyph()
        }
    }

    /// The grid as text: one line per row, each cell by its glyph, and a line
    /// break after every row.
    pub open spec fn rendered(self) -> Seq<char> {
        Seq::new(self.height * (self.width + 1), |i: int| self.rendered_char(i))
    }

    /// The state of `(row, col)` in the next generation.
    pub open spec fn next_cell(self, row: int, col: int) -> Cell {
        next_state(self.cell(row, col), self.live_neighbors(row, col) as int)
    }

    /// The next generation: every cell is taken to its next state, each from
    /// this grid alone.
    pub open spec fn next_generation(self) -> Grid {
        Grid {
            width: self.width,
            height: self.height,
            cells: Seq::new(
                self.cells.len(),
                |i: int| self.next_cell(self.row_of(i), self.col_of(i)),
            ),
        }
    }
}

/// The state that a new universe gives the cell at place `i`.
pub open spec fn seed_cell(i: int) -> Cell {
    if i % 2 == 0 || i % 7 == 0 {
        Cell::Alive
    } else {
        Cell::Dead
    }
}

/// Whether `(row, col)` occurs in `coords`.
pub open spec fn lists(coords: Seq<(u32, u32)>, row: int, col: int) -> bool {
    exists|k: int|
        0 <= k < coords.len() && (#[trigger] coords[k]).0 == row && coords[k].1 == col
}

/// Whether the lightship centered at `(row, col)` covers `(r, c)`.
pub open spec fn under_lightship(row: int, col: int, r: int, c: int) -> bool {
    row - 1 <= r <= row + 2 && col - 2 <= c <= col + 2
}

/// In a well-formed grid a coordinate in bounds has its place among `cells`,
/// within the stretch of its row.
pub proof fn lemma_index_in_range(g: Grid, row: int, col: int)
    requires
        g.wf(),
        g.in_bounds(row, col),
    ensures
        0 <= row * g.width <= g.index(row, col) < (row + 1) * g.width <= g.cells.len(),
{
    let w = g.width as int;
    let h = g.height as int;
    assert(0 <= row * w && (row + 1) * w == row * w + w && (row + 1) * w <= w * h)
        by (nonlinear_arith)
        requires
            0 <= row < h,
            w > 0,
    ;
}

/// `row_of` and `col_of` take the place of a coordinate back to the coordinate.
pub proof fn lemma_coordinate_of_index(g: Grid, row: int, col: int)
    requires
        g.wf(),
        g.in_bounds(row, col),
    ensures
        g.row_of(g.index(row, col)) == row,
        g.col_of(g.index(row, col)) == col,
{
    lemma_fundamental_div_mod_converse(g.index(row, col), g.width as int, row, col);
}

/// Every place of `cells` is the place of exactly the coordinate that `row_of`
/// and `col_of` give, and that coordinate is in bounds.
pub proof fn lemma_index_of_coordinate(g: Grid, i: int)
    requires
        g.wf(),
        0 <= i < g.cells.len(),
    ensures
        g.in_bounds(g.row_of(i), g.col_of(i)),
        g.index(g.row_of(i), g.col_of(i)) == i,
{
    let w = g.width as int;
    let h = g.height as int;
    lemma_fundamental_div_mod(i, w);
    let q = i / w;
    assert(w * q == q * w) by (nonlinear_arith);
    assert(0 <= q < h) by (nonlinear_arith)
        requires
            0 <= i < w * h,
            i == q * w + i % w,
            0 <= i % w < w,
    ;
}

} // verus!
