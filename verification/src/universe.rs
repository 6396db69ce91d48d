//! The executable universe: a `Vec` of cells behind the `Grid` model.

use vstd::prelude::*;
use vstd::arithmetic::div_mod::lemma_fundamental_div_mod_converse;
use vstd::string::StringExecFns;
use crate::cell::{Cell, evolve};
use crate::error::UniverseError;
use crate::grid::{
    Grid, lemma_coordinate_of_index, lemma_index_in_range, lemma_index_of_coordinate, lists,
    seed_cell, under_lightship,
};
use crate::pattern::{LIGHTSHIP_COLS, LIGHTSHIP_ROWS, lightship, lightship_cell};

verus! {

/// The number of columns of a new universe.
pub const DEFAULT_WIDTH: u32 = 256;

/// The number of rows of a new universe.
pub const DEFAULT_HEIGHT: u32 = 128;

/// Whether a universe can have `width` columns and `height` rows: neither is
/// zero, and the cells are at most `u32::MAX`, so that every place in the
/// buffer is a `u32`.
pub open spec fn valid_dimensions(width: nat, height: nat) -> bool {
    width > 0 && height > 0 && width * height <= u32::MAX
}

/// A toroidal grid of cells that `tick` advances by one generation.
pub struct Universe {
    width: u32,
    height: u32,
    cells: Vec<Cell>,
}

impl View for Universe {
    type V = Grid;

    closed spec fn view(&self) -> Grid {
        Grid { width: self.width as nat, height: self.height as nat, cells: self.cells@ }
    }
}

impl Universe {
    /// Every universe has valid dimensions and one cell per coordinate.
    #[verifier::type_invariant]
    spec fn inv(&self) -> bool {
        &&& valid_dimensions(self@.width, self@.height)
        &&& self@.wf()
    }

    /// A universe of `DEFAULT_WIDTH` by `DEFAULT_HEIGHT` cells in which the
    /// cell at place `i` of the buffer is alive if and only if 2 or 7 divides `i`.
    pub fn new() -> (universe: Universe)
        ensures
            universe@ == Grid::seeded(DEFAULT_WIDTH as nat, DEFAULT_HEIGHT as nat),
            universe@.wf(),
            universe@.width == 256,
            universe@.height == 128,
            universe@.cells.len() == 32768,
            forall|i: int|
                0 <= i < 32768 ==> (#[trigger] universe@.cells[i] == Cell::Alive <==> (i % 2 == 0
                    || i % 7 == 0)),
    {
        let width = DEFAULT_WIDTH;
        let height = DEFAULT_HEIGHT;
        let total: u32 = width * height;
        let mut cells: Vec<Cell> = Vec::with_capacity(total as usize);
        for i in 0..total
            invariant
                cells@.len() == i,
                forall|j: int| 0 <= j < i ==> #[trigger] cells@[j] == seed_cell(j),
        {
            cells.push(
                if i % 2 == 0 || i % 7 == 0 {
                    Cell::Alive
                } else {
                    Cell::Dead
                },
            );
        }
        let universe = Universe { width, height, cells };
        assert(universe@.cells =~= Grid::seeded(DEFAULT_WIDTH as nat, DEFAULT_HEIGHT as nat).cells);
        universe
    }

    /// The number of columns.
    pub fn width(&self) -> (w: u32)
        ensures
            w == self@.width,
            self@.wf(),
    {
        proof {
            use_type_invariant(self);
        }
        self.width
    }

    /// The number of rows.
    pub fn height(&self) -> (h: u32)
        ensures
            h == self@.height,
            self@.wf(),
    {
        proof {
            use_type_invariant(self);
        }
        self.height
    }

    /// The cells in row-major order, borrowed from the universe.
    pub fn get_cells(&self) -> (cells: &[Cell])
        ensures
            cells@ == self@.cells,
            self@.wf(),
    {
        proof {
            use_type_invariant(self);
        }
        self.cells.as_slice()
    }

    /// The place of `(row, col)` in the cell buffer: `row * width + col`.
    pub fn get_index(&self, row: u32, col: u32) -> (idx: usize)
        requires
            self@.in_bounds(row as int, col as int),
        ensures
            idx == self@.index(row as int, col as int),
            idx < self@.cells.len(),
    {
        proof {
            use_type_invariant(self);
            lemma_index_in_range(self@, row as int, col as int);
        }
        (row * self.width + col) as usize
    }

    /// `row` shifted by `delta` rows around the torus. The sum is taken in 64
    /// bits, so it wraps only at the edge of the grid.
    fn wrap_row(&self, row: u32, delta: u32) -> (wrapped: u32)
        ensures
            wrapped == self@.wrap_row(row as int, delta as int),
            wrapped < self@.height,
    {
        proof {
            use_type_invariant(self);
        }
        ((row as u64 + delta as u64) % (self.height as u64)) as u32
    }

    /// `col` shifted by `delta` columns around the torus.
    fn wrap_col(&self, col: u32, delta: u32) -> (wrapped: u32)
        ensures
            wrapped == self@.wrap_col(col as int, delta as int),
            wrapped < self@.width,
    {
        proof {
            use_type_invariant(self);
        }
        ((col as u64 + delta as u64) % (self.width as u64)) as u32
    }

    /// 1 if the cell at `(row, col)` is alive, 0 if it is dead.
    fn population(&self, row: u32, col: u32) -> (n: u8)
        requires
            self@.in_bounds(row as int, col as int),
        ensures
            n == self@.population((row as int, col as int)),
            n <= 1,
    {
        let idx = self.get_index(row, col);
        self.cells[idx].as_u8()
    }

    /// Counts the live cells among the eight neighbors of `(row, col)` on the
    /// torus. A coordinate beyond the edge is taken around it.
    pub fn live_neighbor_count(&self, row: u32, col: u32) -> (count: u8)
        ensures
            count == self@.live_neighbors(row as int, col as int),
            count <= 8,
    {
        proof {
            use_type_invariant(self);
        }
        let up = self.wrap_row(row, self.height - 1);
        let mid = self.wrap_row(row, 0);
        let down = self.wrap_row(row, 1);
        let left = self.wrap_col(col, self.width - 1);
        let center = self.wrap_col(col, 0);
        let right = self.wrap_col(col, 1);
        let mut count: u8 = 0;
        count += self.population(up, left);
        count += self.population(up, center);
        count += self.population(up, right);
        count += self.population(mid, left);
        count += self.population(mid, right);
        count += self.population(down, left);
        count += self.population(down, center);
        count += self.population(down, right);
        count
    }

    /// Advances the universe by one generation. Every cell's next state is
    /// computed from the generation before the call; none sees a neighbor's
    /// new state.
    pub fn tick(&mut self)
        ensures
            final(self)@ == old(self)@.next_generation(),
            final(self)@.wf(),
    {
        proof {
            use_type_invariant(&*self);
        }
        let mut next: Vec<Cell> = Vec::with_capacity(self.cells.len());
        assert(0 * self.width == 0);
        for row in 0..self.height
            invariant
                self@.wf(),
                next@.len() == row * self.width,
                forall|i: int|
                    0 <= i < next@.len() ==> #[trigger] next@[i] == self@.next_cell(
                        self@.row_of(i),
                        self@.col_of(i),
                    ),
        {
            for col in 0..self.width
                invariant
                    self@.wf(),
                        row < self.height,
                    next@.len() == row * self.width + col,
                    forall|i: int|
                        0 <= i < next@.len() ==> #[trigger] next@[i] == self@.next_cell(
                            self@.row_of(i),
                            self@.col_of(i),
                        ),
            {
                let idx = self.get_index(row, col);
                let cell = self.cells[idx];
                let live_neighbors = self.live_neighbor_count(row, col);
                proof {
                    lemma_coordinate_of_index(self@, row as int, col as int);
                }
                next.push(evolve(cell, live_neighbors));
            }
            assert((row + 1) * self.width == row * self.width + self.width) by (nonlinear_arith);
        }
        assert(next@.len() == self@.cells.len()) by (nonlinear_arith)
            requires
                next@.len() == self.height * self.width,
                self@.cells.len() == self.width * self.height,
        ;
        assert(next@ =~= self@.next_generation().cells);
        self.cells = next;
    }

    /// The number of cells of a grid of the given size, if a universe can
    /// have that size.
    fn cell_count(width: u32, height: u32) -> (count: Option<u32>)
        ensures
            valid_dimensions(width as nat, height as nat) ==> count == Some(
                (width * height) as u32,
            ),
            !valid_dimensions(width as nat, height as nat) ==> count.is_none(),
    {
        if width == 0 || height == 0 {
            return None;
        }
        width.checked_mul(height)
    }

    /// A buffer of `count` dead cells.
    fn dead_cells(count: u32) -> (cells: Vec<Cell>)
        ensures
            cells@ == Seq::new(count as nat, |i: int| Cell::Dead),
    {
        let mut cells: Vec<Cell> = Vec::with_capacity(count as usize);
        for i in 0..count
            invariant
                cells@.len() == i,
                forall|j: int| 0 <= j < i ==> #[trigger] cells@[j] == Cell::Dead,
        {
            cells.push(Cell::Dead);
        }
        assert(cells@ =~= Seq::new(count as nat, |i: int| Cell::Dead));
        cells
    }

    /// Gives the universe `width` columns and makes every cell dead. A width
    /// of zero, or one with which the cells are more than `u32::MAX`, is
    /// refused, and the universe stays as it was.
    pub fn set_width(&mut self, width: u32) -> (result: Result<(), UniverseError>)
        ensures
            valid_dimensions(width as nat, old(self)@.height) ==> result is Ok && final(self)@
                == Grid::dead(width as nat, old(self)@.height),
            !valid_dimensions(width as nat, old(self)@.height) ==> result == Err::<
                (),
                UniverseError,
            >(UniverseError::InvalidDimensions) && final(self)@ == old(self)@,
            final(self)@.wf(),
    {
        proof {
            use_type_invariant(&*self);
        }
        let height = self.height;
        match Self::cell_count(width, height) {
            Some(count) => {
                let cells = Self::dead_cells(count);
                *self = Universe { width, height, cells };
                Ok(())
            },
            None => Err(UniverseError::InvalidDimensions),
        }
    }

    /// Gives the universe `height` rows and makes every cell dead. A height
    /// of zero, or one with which the cells are more than `u32::MAX`, is
    /// refused, and the universe stays as it was.
    pub fn set_height(&mut self, height: u32) -> (result: Result<(), UniverseError>)
        ensures
            valid_dimensions(old(self)@.width, height as nat) ==> result is Ok && final(self)@
                == Grid::dead(old(self)@.width, height as nat),
            !valid_dimensions(old(self)@.width, height as nat) ==> result == Err::<
                (),
                UniverseError,
            >(UniverseError::InvalidDimensions) && final(self)@ == old(self)@,
            final(self)@.wf(),
    {
        proof {
            use_type_invariant(&*self);
        }
        let width = self.width;
        match Self::cell_count(width, height) {
            Some(count) => {
                let cells = Self::dead_cells(count);
                *self = Universe { width, height, cells };
                Ok(())
            },
            None => Err(UniverseError::InvalidDimensions),
        }
    }

    /// Whether `(row, col)` is a coordinate of the grid.
    fn in_bounds(&self, row: u32, col: u32) -> (inside: bool)
        ensures
            inside == self@.in_bounds(row as int, col as int),
    {
        row < self.height && col < self.width
    }

    /// Whether the lightship centered at `(row, col)` lies within the grid.
    fn lightship_fits(&self, row: u32, col: u32) -> (fits: bool)
        ensures
            fits == self@.lightship_fits(row as int, col as int),
    {
        let rows_fit = 1 <= row && self.height >= 3 && row <= self.height - 3;
        let cols_fit = 2 <= col && self.width >= 3 && col <= self.width - 3;
        rows_fit && cols_fit
    }

    /// Flips the cell at `(row, col)`. A coordinate outside the grid is
    /// refused, and the universe stays as it was.
    pub fn toggle_cell(&mut self, row: u32, col: u32) -> (result: Result<(), UniverseError>)
        ensures
            old(self)@.in_bounds(row as int, col as int) ==> result is Ok && final(self)@ == old(
                self,
            )@.toggled(row as int, col as int),
            !old(self)@.in_bounds(row as int, col as int) ==> result == Err::<(), UniverseError>(
                UniverseError::OutOfBounds,
            ) && final(self)@ == old(self)@,
            final(self)@.wf(),
    {
        proof {
            use_type_invariant(&*self);
        }
        if !self.in_bounds(row, col) {
            return Err(UniverseError::OutOfBounds);
        }
        let idx = self.get_index(row, col);
        self.cells[idx].toggle();
        Ok(())
    }

    /// Makes every cell listed in `cells` alive and leaves the others as they
    /// are. If any coordinate lies outside the grid the call is refused, and
    /// the universe stays as it was.
    pub fn set_cells(&mut self, cells: &[(u32, u32)]) -> (result: Result<(), UniverseError>)
        ensures
            old(self)@.all_in_bounds(cells@) ==> result is Ok && final(self)@ == old(
                self,
            )@.with_alive(cells@),
            !old(self)@.all_in_bounds(cells@) ==> result == Err::<(), UniverseError>(
                UniverseError::OutOfBounds,
            ) && final(self)@ == old(self)@,
            final(self)@.wf(),
    {
        proof {
            use_type_invariant(&*self);
        }
        let ghost before = self@;
        for k in 0..cells.len()
            invariant
                self@ == before,
                before.wf(),
                forall|j: int|
                    0 <= j < k ==> before.in_bounds(
                        (#[trigger] cells@[j]).0 as int,
                        cells@[j].1 as int,
                    ),
        {
            let (row, col) = cells[k];
            if !self.in_bounds(row, col) {
                return Err(UniverseError::OutOfBounds);
            }
        }
        assert(self@.cells =~= before.with_alive(cells@.take(0)).cells);
        for k in 0..cells.len()
            invariant
                before.wf(),
                valid_dimensions(before.width, before.height),
                before.all_in_bounds(cells@),
                self@ == before.with_alive(cells@.take(k as int)),
        {
            let (row, col) = cells[k];
            let idx = self.get_index(row, col);
            self.cells[idx] = Cell::Alive;
            proof {
                lemma_coordinate_of_index(before, row as int, col as int);
                assert forall|i: int| 0 <= i < before.cells.len() implies self@.cells[i]
                    == before.with_alive(cells@.take(k + 1)).cells[i] by {
                    lemma_index_of_coordinate(before, i);
                    lemma_lists_one_more(cells@, k as int, before.row_of(i), before.col_of(i));
                }
                assert(self@.cells =~= before.with_alive(cells@.take(k + 1)).cells);
            }
        }
        assert(cells@.take(cells@.len() as int) =~= cells@);
        Ok(())
    }

    /// Writes the lightship over the block of cells around `(row, col)`: the
    /// row above it, its own row and the two rows below, from two columns to
    /// the left to two columns to the right. The block does not wrap: if it
    /// does not lie within the grid the call is refused, and the universe
    /// stays as it was.
    pub fn create_lightship(&mut self, row: u32, col: u32) -> (result: Result<(), UniverseError>)
        ensures
            old(self)@.lightship_fits(row as int, col as int) ==> result is Ok && final(self)@
                == old(self)@.with_lightship(row as int, col as int),
            !old(self)@.lightship_fits(row as int, col as int) ==> result == Err::<
                (),
                UniverseError,
            >(UniverseError::OutOfBounds) && final(self)@ == old(self)@,
            final(self)@.wf(),
    {
        proof {
            use_type_invariant(&*self);
        }
        if !self.lightship_fits(row, col) {
            return Err(UniverseError::OutOfBounds);
        }
        let ghost before = self@;
        let top = row - 1;
        let left = col - 2;
        for i in 0..LIGHTSHIP_ROWS
            invariant
                before.wf(),
                valid_dimensions(before.width, before.height),
                before.lightship_fits(row as int, col as int),
                top == row - 1,
                left == col - 2,
                self@.width == before.width,
                self@.height == before.height,
                self@.cells.len() == before.cells.len(),
                forall|k: int|
                    0 <= k < before.cells.len() ==> #[trigger] self@.cells[k] == stamping(
                        before,
                        row as int,
                        col as int,
                        i as int,
                        0,
                        k,
                    ),
        {
            for j in 0..LIGHTSHIP_COLS
                invariant
                    before.wf(),
                    valid_dimensions(before.width, before.height),
                    before.lightship_fits(row as int, col as int),
                    top == row - 1,
                    left == col - 2,
                    i < LIGHTSHIP_ROWS,
                    self@.width == before.width,
                    self@.height == before.height,
                    self@.cells.len() == before.cells.len(),
                    forall|k: int|
                        0 <= k < before.cells.len() ==> #[trigger] self@.cells[k] == stamping(
                            before,
                            row as int,
                            col as int,
                            i as int,
                            j as int,
                            k,
                        ),
            {
                let idx = self.get_index(top + i, left + j);
                self.cells[idx] = lightship_cell(i, j);
                proof {
                    lemma_coordinate_of_index(before, top + i, left + j);
                    assert forall|k: int| 0 <= k < before.cells.len() implies self@.cells[k]
                        == stamping(before, row as int, col as int, i as int, j + 1, k) by {
                        lemma_index_of_coordinate(before, k);
                    }
                }
            }
        }
        assert(self@.cells =~= before.with_lightship(row as int, col as int).cells);
        Ok(())
    }

    /// The universe as text: one line per row, a hollow square for each dead
    /// cell and a filled square for each live one, and a line break after
    /// every row.
    pub fn render(&self) -> (text: String)
        ensures
            text@ == self@.rendered(),
            self@.wf(),
    {
        proof {
            use_type_invariant(self);
        }
        let mut text = String::new();
        assert(0 * (self.width + 1) == 0);
        for row in 0..self.height
            invariant
                self@.wf(),
                text@.len() == row * (self.width + 1),
                forall|i: int|
                    0 <= i < text@.len() ==> #[trigger] text@[i] == self@.rendered_char(i),
        {
            for col in 0..self.width
                invariant
                    self@.wf(),
                        row < self.height,
                    text@.len() == row * (self.width + 1) + col,
                    forall|i: int|
                        0 <= i < text@.len() ==> #[trigger] text@[i] == self@.rendered_char(i),
            {
                let idx = self.get_index(row, col);
                proof {
                    lemma_fundamental_div_mod_converse(
                        row * (self.width + 1) + col,
                        self.width + 1,
                        row as int,
                        col as int,
                    );
                }
                text.append(self.cells[idx].symbol());
            }
            text.append("\n");
            proof {
                reveal_strlit("\n");
                lemma_fundamental_div_mod_converse(
                    row * (self.width + 1) + self.width,
                    self.width + 1,
                    row as int,
                    self.width as int,
                );
                assert((row + 1) * (self.width + 1) == row * (self.width + 1) + self.width + 1)
                    by (nonlinear_arith);
            }
        }
        assert(text@ =~= self@.rendered());
        text
    }
}

/// The cell at place `k` of `before` once the lightship around `(row, col)`
/// has been written as far as `rows` whole rows and `cols` cells of the next.
spec fn stamping(before: Grid, row: int, col: int, rows: int, cols: int, k: int) -> Cell {
    let r = before.row_of(k);
    let c = before.col_of(k);
    let written = r < row - 1 + rows || (r == row - 1 + rows && c < col - 2 + cols);
    if under_lightship(row, col, r, c) && written {
        lightship()[r - row + 1][c - col + 2]
    } else {
        before.cells[k]
    }
}

/// A coordinate is listed among the first `k + 1` of `coords` if and only if
/// it is listed among the first `k` or is the one at place `k`.
proof fn lemma_lists_one_more(coords: Seq<(u32, u32)>, k: int, row: int, col: int)
    requires
        0 <= k < coords.len(),
    ensures
        lists(coords.take(k + 1), row, col) <==> lists(coords.take(k), row, col) || (coords[k].0
            == row && coords[k].1 == col),
{
    let shorter = coords.take(k);
    let longer = coords.take(k + 1);
    if lists(longer, row, col) {
        let j = choose|j: int|
            0 <= j < longer.len() && (#[trigger] longer[j]).0 == row && longer[j].1 == col;
        if j < k {
            assert(shorter[j] == longer[j]);
        }
    }
    if lists(shorter, row, col) {
        let j = choose|j: int|
            0 <= j < shorter.len() && (#[trigger] shorter[j]).0 == row && shorter[j].1 == col;
        assert(longer[j] == shorter[j]);
    }
    if coords[k].0 == row && coords[k].1 == col {
        assert(longer[k] == coords[k]);
    }
}

} // verus!
