//! What holds of every grid: the shape of the torus, the range of the
//! neighbor count, and how the operations on a universe relate.

use vstd::prelude::*;
use vstd::arithmetic::div_mod::{lemma_fundamental_div_mod_converse, lemma_small_mod};
use crate::cell::{Cell, next_state};
use crate::grid::{Grid, lemma_coordinate_of_index, lemma_index_in_range, lists, under_lightship};
use crate::pattern::lightship;

verus! {

/// The torus has no edge: the row above the first row is the last one and the
/// row below the last row is the first, and likewise for columns. Everywhere
/// else a shift by one is a step by one.
pub proof fn lemma_wrap_around(g: Grid, row: int, col: int)
    requires
        g.wf(),
        g.in_bounds(row, col),
    ensures
        g.wrap_row(row, g.height - 1) == (if row == 0 {
            g.height - 1
        } else {
            row - 1
        }),
        g.wrap_row(row, 0) == row,
        g.wrap_row(row, 1) == (if row == g.height - 1 {
            0
        } else {
            row + 1
        }),
        g.wrap_col(col, g.width - 1) == (if col == 0 {
            g.width - 1
        } else {
            col - 1
        }),
        g.wrap_col(col, 0) == col,
        g.wrap_col(col, 1) == (if col == g.width - 1 {
            0
        } else {
            col + 1
        }),
{
    lemma_wrap(row, g.height as int);
    lemma_wrap(col, g.width as int);
}

/// Shifting a position on a ring of `len` places by `len - 1`, 0 and 1.
proof fn lemma_wrap(pos: int, len: int)
    requires
        0 <= pos < len,
    ensures
        (pos + len - 1) % len == (if pos == 0 {
            len - 1
        } else {
            pos - 1
        }),
        (pos + 0) % len == pos,
        (pos + 1) % len == (if pos == len - 1 {
            0
        } else {
            pos + 1
        }),
{
    lemma_small_mod(pos as nat, len as nat);
    if pos == 0 {
        lemma_small_mod((len - 1) as nat, len as nat);
    } else {
        lemma_fundamental_div_mod_converse(pos + len - 1, len, 1, pos - 1);
    }
    if pos == len - 1 {
        lemma_fundamental_div_mod_converse(pos + 1, len, 1, 0);
    } else {
        lemma_small_mod((pos + 1) as nat, len as nat);
    }
}

/// Corners wrap to the opposite corners: among the neighbors of `(0, 0)` are
/// the last cell of the last row, the first cell of the last row and the last
/// cell of the first row.
pub proof fn lemma_corner_neighbors(g: Grid)
    requires
        g.wf(),
    ensures
        g.neighbors(0, 0).contains((g.height - 1, g.width - 1)),
        g.neighbors(0, 0).contains((g.height - 1, 0int)),
        g.neighbors(0, 0).contains((0int, g.width - 1)),
{
    lemma_wrap_around(g, 0, 0);
    let n = g.neighbors(0, 0);
    assert(n[0] == (g.height - 1, g.width - 1));
    assert(n[1] == (g.height - 1, 0int));
    assert(n[3] == (0int, g.width - 1));
}

/// Every neighbor of every coordinate is a coordinate of the grid.
pub proof fn lemma_neighbors_in_bounds(g: Grid, row: int, col: int, k: int)
    requires
        g.wf(),
        0 <= k < 8,
    ensures
        g.neighbors(row, col).len() == 8,
        g.in_bounds(g.neighbors(row, col)[k].0, g.neighbors(row, col)[k].1),
{
}

/// A cell has between zero and eight live neighbors, whatever the grid.
pub proof fn lemma_live_neighbors_range(g: Grid, row: int, col: int)
    ensures
        0 <= g.live_neighbors(row, col) <= 8,
{
}

/// A tick keeps the shape of the grid, and every cell of the next generation
/// is the rule applied to that cell and its live neighbors in this
/// generation: no cell's next state depends on another cell's next state.
pub proof fn lemma_next_generation(g: Grid, row: int, col: int)
    requires
        g.wf(),
        g.in_bounds(row, col),
    ensures
        g.next_generation().wf(),
        g.next_generation().width == g.width,
        g.next_generation().height == g.height,
        g.next_generation().cell(row, col) == next_state(
            g.cell(row, col),
            g.live_neighbors(row, col) as int,
        ),
{
    lemma_index_in_range(g, row, col);
    lemma_coordinate_of_index(g, row, col);
}

/// Birth: a dead cell is alive in the next generation if and only if exactly
/// three of its neighbors are alive.
pub proof fn lemma_birth(g: Grid, row: int, col: int)
    requires
        g.wf(),
        g.in_bounds(row, col),
        g.cell(row, col) == Cell::Dead,
    ensures
        g.next_generation().cell(row, col) == Cell::Alive <==> g.live_neighbors(row, col) == 3,
{
    lemma_next_generation(g, row, col);
}

/// Survival: a live cell is alive in the next generation if and only if two
/// or three of its neighbors are alive.
pub proof fn lemma_survival(g: Grid, row: int, col: int)
    requires
        g.wf(),
        g.in_bounds(row, col),
        g.cell(row, col) == Cell::Alive,
    ensures
        g.next_generation().cell(row, col) == Cell::Alive <==> (g.live_neighbors(row, col) == 2
            || g.live_neighbors(row, col) == 3),
{
    lemma_next_generation(g, row, col);
}

/// A grid of dead cells of positive size is well-formed, has one cell per
/// coordinate, and every one of them is dead.
pub proof fn lemma_dead_grid(width: nat, height: nat, row: int, col: int)
    requires
        width > 0,
        height > 0,
        0 <= row < height,
        0 <= col < width,
    ensures
        Grid::dead(width, height).wf(),
        Grid::dead(width, height).cells.len() == width * height,
        Grid::dead(width, height).cell(row, col) == Cell::Dead,
{
    lemma_index_in_range(Grid::dead(width, height), row, col);
}

/// Flipping a cell twice gives back the grid as it was.
pub proof fn lemma_toggle_twice(g: Grid, row: int, col: int)
    requires
        g.wf(),
        g.in_bounds(row, col),
    ensures
        g.toggled(row, col).toggled(row, col) == g,
{
    lemma_index_in_range(g, row, col);
    assert(g.toggled(row, col).toggled(row, col).cells =~= g.cells);
}

/// Flipping a cell changes that cell and no other.
pub proof fn lemma_toggle_one_cell(g: Grid, row: int, col: int, r: int, c: int)
    requires
        g.wf(),
        g.in_bounds(row, col),
        g.in_bounds(r, c),
    ensures
        g.toggled(row, col).wf(),
        g.toggled(row, col).cell(r, c) == (if r == row && c == col {
            g.cell(r, c).flipped()
        } else {
            g.cell(r, c)
        }),
{
    lemma_index_in_range(g, row, col);
    lemma_index_in_range(g, r, c);
    lemma_coordinate_of_index(g, row, col);
    lemma_coordinate_of_index(g, r, c);
}

/// Bulk setting makes a cell alive if it is listed and leaves it as it is if
/// it is not.
pub proof fn lemma_with_alive_cell(g: Grid, coords: Seq<(u32, u32)>, row: int, col: int)
    requires
        g.wf(),
        g.in_bounds(row, col),
    ensures
        g.with_alive(coords).wf(),
        g.with_alive(coords).cell(row, col) == (if lists(coords, row, col) {
            Cell::Alive
        } else {
            g.cell(row, col)
        }),
{
    lemma_index_in_range(g, row, col);
    lemma_coordinate_of_index(g, row, col);
}

/// Stamping the lightship at `(row, col)` gives each cell under it the cell
/// of the pattern, counted from the block's upper left corner, and leaves
/// every other cell as it is.
pub proof fn lemma_with_lightship_cell(g: Grid, row: int, col: int, r: int, c: int)
    requires
        g.wf(),
        g.in_bounds(r, c),
    ensures
        g.with_lightship(row, col).wf(),
        g.with_lightship(row, col).cell(r, c) == (if under_lightship(row, col, r, c) {
            lightship()[r - (row - 1)][c - (col - 2)]
        } else {
            g.cell(r, c)
        }),
{
    lemma_index_in_range(g, r, c);
    lemma_coordinate_of_index(g, r, c);
}

/// The rendering has one line of `width` glyphs and a line break for every
/// row: in line `row`, the character in column `col` is the glyph of the cell
/// at `(row, col)`, and the character after the last column is the line break.
pub proof fn lemma_rendered_cell(g: Grid, row: int, col: int)
    requires
        g.wf(),
        g.in_bounds(row, col),
    ensures
        g.rendered().len() == g.height * (g.width + 1),
        0 <= row * (g.width + 1) + col < row * (g.width + 1) + g.width < g.rendered().len(),
        g.rendered()[row * (g.width + 1) + col] == g.cell(row, col).glyph(),
        g.rendered()[row * (g.width + 1) + g.width] == '\n',
{
    let stride = g.width as int + 1;
    assert(0 <= row * stride && (row + 1) * stride == row * stride + stride && (row + 1) * stride
        <= g.height * stride) by (nonlinear_arith)
        requires
            0 <= row < g.height,
            stride > 0,
    ;
    lemma_fundamental_div_mod_converse(row * stride + col, stride, row, col);
    lemma_fundamental_div_mod_converse(row * stride + g.width, stride, row, g.width as int);
}

} // verus!
