use vstd::prelude::*;

verus! {

use vstd::arithmetic::div_mod::lemma_fundamental_div_mod_converse;
use crate::cell::Cell;
use crate::cell::flipped;
use crate::cell::live;

/// Flat index of the cell at `(row, col)` in the row-major cell sequence.
pub open spec fn flat(width: int, row: int, col: int) -> int {
    row * width + col
}

/// One step backward with toroidal wrap. Adding `m - 1` and reducing modulo
/// `m` is the wrap-safe way to subtract 1 on an unsigned coordinate space.
pub open spec fn wrap_dec(i: int, m: int) -> int {
    (i + m - 1) % m
}

/// One step forward with toroidal wrap.
pub open spec fn wrap_inc(i: int, m: int) -> int {
    (i + 1) % m
}

/// Numeric value (0 or 1) of the grid cell at `(row, col)`.
pub open spec fn live_at(g: Seq<Cell>, width: int, row: int, col: int) -> int {
    live(g[flat(width, row, col)])
}

/// One summand of the neighbor count: the value of the cell one offset pair
/// `(dr, dc)` away from `(row, col)` with toroidal wrap, except that an
/// offset pair whose value is `(0, 0)` is skipped and contributes nothing.
///
/// The skip is by value: when a dimension is 1 the wrapped backward offset
/// (`height - 1` or `width - 1`) is itself 0, so further pairs fall on
/// `(0, 0)` and are skipped too.
pub open spec fn offset_term(
    g: Seq<Cell>,
    width: int,
    height: int,
    row: int,
    col: int,
    dr: int,
    dc: int,
) -> int {
    if dr == 0 && dc == 0 {
        0
    } else {
        live_at(g, width, (row + dr) % height, (col + dc) % width)
    }
}

/// Number of live cells among the toroidally wrapped neighbors of
/// `(row, col)`: the sum over the offset pairs `[height-1, 0, 1] x
/// [width-1, 0, 1]`, each pair equal to `(0, 0)` by value skipped.
///
/// On a grid with a dimension of 2 some of the 8 neighbor positions
/// coincide (possibly with the cell itself) and are counted more than once;
/// on a grid with a dimension of 1 the zero-valued wrapped offsets are
/// skipped, so fewer than 8 positions are counted. Both degenerate
/// behaviors are deliberate and kept as-is.
pub open spec fn neighbor_count(g: Seq<Cell>, width: int, height: int, row: int, col: int) -> int {
    offset_term(g, width, height, row, col, height - 1, width - 1)
        + offset_term(g, width, height, row, col, height - 1, 0)
        + offset_term(g, width, height, row, col, height - 1, 1)
        + offset_term(g, width, height, row, col, 0, width - 1)
        + offset_term(g, width, height, row, col, 0, 1)
        + offset_term(g, width, height, row, col, 1, width - 1)
        + offset_term(g, width, height, row, col, 1, 0)
        + offset_term(g, width, height, row, col, 1, 1)
}

/// The classic birth/survival rule for one cell with live-neighbor count `n`:
/// a live cell survives exactly with 2 or 3 live neighbors, a dead cell is
/// born exactly with 3, and every other cell is dead in the next generation.
pub open spec fn step(c: Cell, n: int) -> Cell {
    match c {
        Cell::Alive => if n == 2 || n == 3 {
            Cell::Alive
        } else {
            Cell::Dead
        },
        Cell::Dead => if n == 3 {
            Cell::Alive
        } else {
            Cell::Dead
        },
    }
}

/// Next state of the cell at `(row, col)`.
pub open spec fn next_cell(g: Seq<Cell>, width: int, height: int, row: int, col: int) -> Cell {
    step(g[flat(width, row, col)], neighbor_count(g, width, height, row, col))
}

/// Next state of the cell at flat index `i`, recovering its row and column
/// from the row-major layout.
pub open spec fn step_at(g: Seq<Cell>, width: int, height: int, i: int) -> Cell {
    next_cell(g, width, height, i / width, i % width)
}

/// The whole next generation: every cell stepped simultaneously against the
/// prior generation `g`.
pub open spec fn ticked(g: Seq<Cell>, width: int, height: int) -> Seq<Cell> {
    Seq::new((width * height) as nat, |i: int| step_at(g, width, height, i))
}

/// The grid `g` with the single cell at flat index `i` flipped.
pub open spec fn toggled(g: Seq<Cell>, i: int) -> Seq<Cell> {
    g.update(i, flipped(g[i]))
}

/// Glyph used for one cell in the text rendering.
pub open spec fn glyph(c: Cell) -> char {
    if c is Alive {
        '◼'
    } else {
        '◻'
    }
}

/// The characters of one rendered row: one glyph per cell, then a newline.
pub open spec fn row_chars(g: Seq<Cell>, width: int, row: int) -> Seq<char> {
    Seq::new(width as nat, |c: int| glyph(g[flat(width, row, c)])).push('\n')
}

/// The first `upto` rendered rows, concatenated.
pub open spec fn rows_upto(g: Seq<Cell>, width: int, upto: int) -> Seq<char>
    decreases upto,
{
    if upto <= 0 {
        Seq::empty()
    } else {
        rows_upto(g, width, upto - 1) + row_chars(g, width, upto - 1)
    }
}

/// The full text rendering of the grid: one line per row, one glyph per
/// cell, each row closed by a newline.
pub open spec fn rendered(g: Seq<Cell>, width: int, height: int) -> Seq<char> {
    rows_upto(g, width, height)
}

/// Every cell of the grid is dead.
pub open spec fn all_dead(g: Seq<Cell>) -> bool {
    forall|i: int| 0 <= i < g.len() ==> g[i] == Cell::Dead
}

/// A valid cell position maps to a flat index inside the grid.
pub proof fn lemma_flat_range(width: int, height: int, row: int, col: int)
    requires
        0 <= row < height,
        0 <= col < width,
    ensures
        0 <= flat(width, row, col) < width * height,
{
    assert(0 <= row * width + col < width * height) by (nonlinear_arith)
        requires
            0 <= row < height,
            0 <= col < width,
    ;
}

/// The wrapped steps evaluate the expected way on an in-range coordinate:
/// one step back reaches `i - 1`, except at 0 where it wraps to `m - 1`,
/// and one step forward reaches `i + 1`, except at `m - 1` where it wraps
/// to 0.
pub proof fn lemma_wrap_values(i: int, m: int)
    requires
        0 <= i < m,
    ensures
        wrap_dec(i, m) == if i == 0 {
            m - 1
        } else {
            i - 1
        },
        wrap_inc(i, m) == if i == m - 1 {
            0
        } else {
            i + 1
        },
{
    if i == 0 {
        assert((m - 1) % m == m - 1) by (nonlinear_arith)
            requires
                1 <= m,
        ;
    } else {
        assert((i + m - 1) % m == i - 1) by (nonlinear_arith)
            requires
                1 <= i < m,
        ;
    }
    if i == m - 1 {
        assert(m % m == 0) by (nonlinear_arith)
            requires
                1 <= m,
        ;
    } else {
        assert((i + 1) % m == i + 1) by (nonlinear_arith)
            requires
                0 <= i < m - 1,
        ;
    }
}

/// Row and column are recovered from a flat index by division and remainder.
pub proof fn lemma_flat_div_mod(width: int, row: int, col: int)
    requires
        0 <= row,
        0 <= col < width,
    ensures
        flat(width, row, col) / width == row,
        flat(width, row, col) % width == col,
{
    lemma_fundamental_div_mod_converse(row * width + col, width, row, col);
}

/// The generation update written over flat indices agrees, position by
/// position, with the rule applied at `(row, col)`.
pub proof fn lemma_ticked_at(g: Seq<Cell>, width: int, height: int, row: int, col: int)
    requires
        0 <= row < height,
        0 <= col < width,
    ensures
        ticked(g, width, height)[flat(width, row, col)] == next_cell(g, width, height, row, col),
{
    lemma_flat_range(width, height, row, col);
    lemma_flat_div_mod(width, row, col);
}

} // verus!
