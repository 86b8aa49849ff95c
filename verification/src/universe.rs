use vstd::prelude::*;

verus! {

use vstd::string::StringExecFns;
use crate::cell::Cell;
use crate::rules::all_dead;
use crate::rules::flat;
use crate::rules::glyph;
use crate::rules::lemma_flat_div_mod;
use crate::rules::lemma_flat_range;
use crate::rules::neighbor_count;
use crate::rules::offset_term;
use crate::rules::rendered;
use crate::rules::row_chars;
use crate::rules::rows_upto;
use crate::rules::step;
use crate::rules::step_at;
use crate::rules::ticked;
use crate::rules::toggled;

/// State of the cell at flat index `i` in the default start pattern.
pub open spec fn default_pattern(i: int) -> Cell {
    if i % 2 == 0 || i % 7 == 0 {
        Cell::Alive
    } else {
        Cell::Dead
    }
}

/// Whether `(row, col)` is one of the five live cells of the glider pattern
/// anchored near the top-left corner.
pub open spec fn glider_alive(row: int, col: int) -> bool {
    ||| (row == 1 && col == 3)
    ||| (row == 2 && col == 3)
    ||| (row == 3 && col == 3)
    ||| (row == 2 && col == 1)
    ||| (row == 3 && col == 2)
}

/// Whether some pair in `coords` names the cell at flat index `i` of a grid
/// with the given width.
pub open spec fn lists_cell(coords: Seq<(u32, u32)>, width: int, i: int) -> bool {
    exists|k: int| 0 <= k < coords.len() && flat(width, coords[k].0 as int, coords[k].1 as int) == i
}

/// The toroidal grid the Game of Life cells live on.
///
/// The cells are stored row-major: the cell at `(row, col)` sits at flat
/// index `row * width + col`. The buffer length always equals
/// `width * height`.
pub struct Universe {
    width: u32,
    height: u32,
    cells: Vec<Cell>,
}

impl Universe {
    /// The cell buffer as a mathematical sequence.
    pub closed spec fn grid(&self) -> Seq<Cell> {
        self.cells@
    }

    /// Number of columns.
    pub closed spec fn spec_width(&self) -> int {
        self.width as int
    }

    /// Number of rows.
    pub closed spec fn spec_height(&self) -> int {
        self.height as int
    }

    /// Well-formedness: the buffer holds exactly one cell per grid position,
    /// and the total cell count fits the 32-bit index arithmetic.
    pub open spec fn wf(&self) -> bool {
        &&& self.grid().len() == self.spec_width() * self.spec_height()
        &&& self.spec_width() * self.spec_height() <= u32::MAX
    }

    /// Creates a 64-by-64 universe seeded with a fixed demo pattern: the
    /// cell at flat index `i` is alive exactly when `i` is divisible by 2
    /// or by 7.
    pub fn new() -> (u: Universe)
        ensures
            u.wf(),
            u.spec_width() == 64,
            u.spec_height() == 64,
            forall|i: int| 0 <= i < 4096 ==> u.grid()[i] == default_pattern(i),
    {
        let width: u32 = 64;
        let height: u32 = 64;
        let mut cells: Vec<Cell> = Vec::new();
        let mut i: u32 = 0;
        while i < width * height
            invariant
                width == 64,
                height == 64,
                i <= 4096,
                cells@.len() == i,
                forall|j: int| 0 <= j < i ==> cells@[j] == default_pattern(j),
            decreases 4096 - i,
        {
            if i % 2 == 0 || i % 7 == 0 {
                cells.push(Cell::Alive);
            } else {
                cells.push(Cell::Dead);
            }
            i += 1;
        }
        Universe { width, height, cells }
    }

    /// Creates an all-dead 64-by-64 universe.
    pub fn new_empty() -> (u: Universe)
        ensures
            u.wf(),
            u.spec_width() == 64,
            u.spec_height() == 64,
            all_dead(u.grid()),
    {
        let cells = vec![Cell::Dead; 4096];
        Universe { width: 64, height: 64, cells }
    }

    /// Creates a 64-by-64 universe where every cell is drawn independently,
    /// alive or dead with equal probability.
    pub fn new_rand() -> (u: Universe)
        ensures
            u.wf(),
            u.spec_width() == 64,
            u.spec_height() == 64,
    {
        let width: u32 = 64;
        let height: u32 = 64;
        let mut cells: Vec<Cell> = Vec::new();
        let mut i: u32 = 0;
        while i < width * height
            invariant
                width == 64,
                height == 64,
                i <= 4096,
                cells@.len() == i,
            decreases 4096 - i,
        {
            cells.push(Cell::rand());
            i += 1;
        }
        Universe { width, height, cells }
    }

    /// Creates an all-dead 64-by-64 universe except for the five cells of a
    /// single glider anchored near the top-left corner.
    pub fn new_lone_glider() -> (u: Universe)
        ensures
            u.wf(),
            u.spec_width() == 64,
            u.spec_height() == 64,
            forall|r: int, c: int|
                0 <= r < 64 && 0 <= c < 64 ==> u.grid()[flat(64, r, c)] == (if glider_alive(r, c) {
                    Cell::Alive
                } else {
                    Cell::Dead
                }),
    {
        let mut cells = vec![Cell::Dead; 4096];
        // the glider's live cells, as (row, col) pairs:
        // (1, 3), (2, 3), (3, 3), (2, 1), (3, 2)
        cells[1 * 64 + 3] = Cell::Alive;
        cells[2 * 64 + 3] = Cell::Alive;
        cells[3 * 64 + 3] = Cell::Alive;
        cells[2 * 64 + 1] = Cell::Alive;
        cells[3 * 64 + 2] = Cell::Alive;
        Universe { width: 64, height: 64, cells }
    }

    /// Redraws every cell independently, alive or dead with equal
    /// probability; the dimensions stay the same.
    pub fn set_rand(&mut self)
        requires
            old(self).wf(),
        ensures
            final(self).wf(),
            final(self).spec_width() == old(self).spec_width(),
            final(self).spec_height() == old(self).spec_height(),
    {
        let total = (self.width as u64 * self.height as u64) as usize;
        let mut new_cells: Vec<Cell> = Vec::new();
        while new_cells.len() < total
            invariant
                new_cells@.len() <= total,
            decreases total - new_cells@.len(),
        {
            new_cells.push(Cell::rand());
        }
        self.cells = new_cells;
    }

    /// Resets every cell to dead; the dimensions stay the same.
    pub fn set_empty(&mut self)
        requires
            old(self).wf(),
        ensures
            final(self).wf(),
            final(self).spec_width() == old(self).spec_width(),
            final(self).spec_height() == old(self).spec_height(),
            all_dead(final(self).grid()),
    {
        let total = (self.width as u64 * self.height as u64) as usize;
        self.cells = vec![Cell::Dead; total];
    }

    /// Current number of columns.
    pub fn width(&self) -> (w: u32)
        ensures
            w == self.spec_width(),
    {
        self.width
    }

    /// Current number of rows.
    pub fn height(&self) -> (h: u32)
        ensures
            h == self.spec_height(),
    {
        self.height
    }

    /// Flat index of the cell at `(row, column)`.
    fn get_index(&self, row: u32, column: u32) -> (idx: usize)
        requires
            self.wf(),
            row < self.height,
            column < self.width,
        ensures
            idx == flat(self.spec_width(), row as int, column as int),
            idx < self.grid().len(),
    {
        proof {
            lemma_flat_range(self.spec_width(), self.spec_height(), row as int, column as int);
        }
        (row as u64 * self.width as u64 + column as u64) as usize
    }

    /// The contribution of the neighbor at offset `(dr, dc)` from
    /// `(row, column)`: 1 when that wrapped cell is alive, 0 when it is dead
    /// or when the offset pair's value is `(0, 0)` and is skipped.
    fn offset_live(&self, row: u32, column: u32, dr: u32, dc: u32) -> (v: u8)
        requires
            self.wf(),
            row < self.height,
            column < self.width,
        ensures
            v == offset_term(
                self.grid(),
                self.spec_width(),
                self.spec_height(),
                row as int,
                column as int,
                dr as int,
                dc as int,
            ),
            v <= 1,
    {
        if dr == 0 && dc == 0 {
            0
        } else {
            let nr = ((row as u64 + dr as u64) % self.height as u64) as u32;
            let nc = ((column as u64 + dc as u64) % self.width as u64) as u32;
            let idx = self.get_index(nr, nc);
            if self.cells[idx] == Cell::Alive {
                1
            } else {
                0
            }
        }
    }

    /// Number of live cells among the toroidally wrapped neighbors of
    /// `(row, column)`: the offset pairs `[height-1, 0, 1] x [width-1, 0, 1]`
    /// are walked and every pair whose value is `(0, 0)` is skipped.
    fn live_neighbor_count(&self, row: u32, column: u32) -> (count: u8)
        requires
            self.wf(),
            row < self.height,
            column < self.width,
        ensures
            count == neighbor_count(
                self.grid(),
                self.spec_width(),
                self.spec_height(),
                row as int,
                column as int,
            ),
    {
        let up = self.height - 1;
        let left = self.width - 1;
        let mut count: u8 = 0;
        count += self.offset_live(row, column, up, left);
        count += self.offset_live(row, column, up, 0);
        count += self.offset_live(row, column, up, 1);
        count += self.offset_live(row, column, 0, left);
        count += self.offset_live(row, column, 0, 1);
        count += self.offset_live(row, column, 1, left);
        count += self.offset_live(row, column, 1, 0);
        count += self.offset_live(row, column, 1, 1);
        count
    }

    /// Advances the grid by exactly one generation.
    ///
    /// Every cell is stepped simultaneously: the new states are computed into
    /// a fresh buffer against a snapshot of the prior generation, then
    /// swapped in, so no update observes another cell's new value.
    pub fn tick(&mut self)
        requires
            old(self).wf(),
        ensures
            final(self).wf(),
            final(self).spec_width() == old(self).spec_width(),
            final(self).spec_height() == old(self).spec_height(),
            final(self).grid() == ticked(
                old(self).grid(),
                old(self).spec_width(),
                old(self).spec_height(),
            ),
    {
        let ghost g0 = self.cells@;
        let ghost w = self.spec_width();
        let ghost h = self.spec_height();
        let mut next = self.cells.clone();
        let mut row: u32 = 0;
        while row < self.height
            invariant
                *self == *old(self),
                self.wf(),
                self.cells@ == g0,
                w == self.spec_width(),
                h == self.spec_height(),
                next@.len() == g0.len(),
                row <= self.height,
                forall|i: int| 0 <= i < row * w ==> next@[i] == step_at(g0, w, h, i),
            decreases self.height - row,
        {
            let mut col: u32 = 0;
            while col < self.width
                invariant
                    *self == *old(self),
                    self.wf(),
                    self.cells@ == g0,
                    w == self.spec_width(),
                    h == self.spec_height(),
                    next@.len() == g0.len(),
                    row < self.height,
                    col <= self.width,
                    forall|i: int| 0 <= i < row * w + col ==> next@[i] == step_at(g0, w, h, i),
                decreases self.width - col,
            {
                let idx = self.get_index(row, col);
                let cell = self.cells[idx];
                let live_neighbors = self.live_neighbor_count(row, col);
                let next_cell = if cell == Cell::Alive {
                    if live_neighbors < 2 {
                        // underpopulation
                        Cell::Dead
                    } else if live_neighbors <= 3 {
                        // survival
                        Cell::Alive
                    } else {
                        // overpopulation
                        Cell::Dead
                    }
                } else if live_neighbors == 3 {
                    // birth
                    Cell::Alive
                } else {
                    Cell::Dead
                };
                next[idx] = next_cell;
                proof {
                    lemma_flat_div_mod(w, row as int, col as int);
                    assert(next@[idx as int] == step(g0[idx as int], neighbor_count(g0, w, h, row as int, col as int)));
                }
                col += 1;
            }
            proof {
                assert((row + 1) * w == row * w + w) by (nonlinear_arith);
            }
            row += 1;
        }
        proof {
            assert(h * w == w * h) by (nonlinear_arith);
            assert(next@ =~= ticked(g0, w, h));
        }
        self.cells = next;
    }

    /// Sets the width of the universe and resets all cells to dead; the
    /// prior content is discarded, not preserved.
    pub fn set_width(&mut self, width: u32)
        requires
            old(self).wf(),
            width * old(self).spec_height() <= u32::MAX,
        ensures
            final(self).wf(),
            final(self).spec_width() == width,
            final(self).spec_height() == old(self).spec_height(),
            all_dead(final(self).grid()),
    {
        self.width = width;
        let total = (width as u64 * self.height as u64) as usize;
        self.cells = vec![Cell::Dead; total];
    }

    /// Sets the height of the universe and resets all cells to dead; the
    /// prior content is discarded, not preserved.
    pub fn set_height(&mut self, height: u32)
        requires
            old(self).wf(),
            old(self).spec_width() * height <= u32::MAX,
        ensures
            final(self).wf(),
            final(self).spec_width() == old(self).spec_width(),
            final(self).spec_height() == height,
            all_dead(final(self).grid()),
    {
        self.height = height;
        let total = (self.width as u64 * height as u64) as usize;
        self.cells = vec![Cell::Dead; total];
    }

    /// Flips exactly the one cell at `(row, column)`.
    pub fn toggle_cell(&mut self, row: u32, column: u32)
        requires
            old(self).wf(),
            row < old(self).spec_height(),
            column < old(self).spec_width(),
        ensures
            final(self).wf(),
            final(self).spec_width() == old(self).spec_width(),
            final(self).spec_height() == old(self).spec_height(),
            final(self).grid() == toggled(
                old(self).grid(),
                flat(old(self).spec_width(), row as int, column as int),
            ),
    {
        let idx = self.get_index(row, column);
        self.cells[idx].toggle();
    }

    /// Sets each cell named by a `(row, col)` pair in `coords` to alive and
    /// leaves every other cell as it was.
    pub fn set_cells(&mut self, coords: &[(u32, u32)])
        requires
            old(self).wf(),
            forall|k: int|
                0 <= k < coords@.len() ==> coords@[k].0 < old(self).spec_height()
                    && coords@[k].1 < old(self).spec_width(),
        ensures
            final(self).wf(),
            final(self).spec_width() == old(self).spec_width(),
            final(self).spec_height() == old(self).spec_height(),
            forall|i: int|
                0 <= i < final(self).grid().len() ==> final(self).grid()[i] == (if lists_cell(
                    coords@,
                    old(self).spec_width(),
                    i,
                ) {
                    Cell::Alive
                } else {
                    old(self).grid()[i]
                }),
    {
        let ghost g0 = self.cells@;
        let ghost w = self.spec_width();
        let mut k: usize = 0;
        while k < coords.len()
            invariant
                self.wf(),
                self.width == old(self).width,
                self.height == old(self).height,
                w == self.spec_width(),
                g0.len() == self.cells@.len(),
                k <= coords@.len(),
                forall|j: int|
                    0 <= j < coords@.len() ==> coords@[j].0 < self.spec_height()
                        && coords@[j].1 < self.spec_width(),
                forall|i: int|
                    0 <= i < self.cells@.len() ==> self.cells@[i] == (if lists_cell(
                        coords@.subrange(0, k as int),
                        w,
                        i,
                    ) {
                        Cell::Alive
                    } else {
                        g0[i]
                    }),
            decreases coords@.len() - k,
        {
            let pair = coords[k];
            let idx = self.get_index(pair.0, pair.1);
            let ghost pre = self.cells@;
            self.cells[idx] = Cell::Alive;
            proof {
                let before = coords@.subrange(0, k as int);
                let after = coords@.subrange(0, k as int + 1);
                assert(after[k as int] == coords@[k as int]);
                assert forall|i: int| 0 <= i < self.cells@.len() implies self.cells@[i] == (
                if lists_cell(after, w, i) {
                    Cell::Alive
                } else {
                    g0[i]
                }) by {
                    if i == idx {
                        assert(lists_cell(after, w, i));
                    } else {
                        if lists_cell(after, w, i) {
                            let j = choose|j: int|
                                0 <= j < after.len() && flat(
                                    w,
                                    after[j].0 as int,
                                    after[j].1 as int,
                                ) == i;
                            assert(j < k);
                            assert(before[j] == after[j]);
                            assert(lists_cell(before, w, i));
                        }
                        if lists_cell(before, w, i) {
                            let j = choose|j: int|
                                0 <= j < before.len() && flat(
                                    w,
                                    before[j].0 as int,
                                    before[j].1 as int,
                                ) == i;
                            assert(after[j] == before[j]);
                            assert(lists_cell(after, w, i));
                        }
                    }
                }
            }
            k += 1;
        }
        proof {
            assert(coords@.subrange(0, coords@.len() as int) =~= coords@);
        }
    }

    /// The dead and alive values of the entire universe, as a read-only
    /// view of the flat row-major cell buffer. The view is valid only until
    /// the next mutating call.
    pub fn get_cells(&self) -> (cs: &[Cell])
        ensures
            cs@ == self.grid(),
    {
        self.cells.as_slice()
    }

    /// A read-only view of the flat cell buffer; the same contract as
    /// [`Universe::get_cells`].
    pub fn cells(&self) -> (cs: &[Cell])
        ensures
            cs@ == self.grid(),
    {
        self.cells.as_slice()
    }

    /// Renders the universe as text: one line per row, one glyph per cell,
    /// every row closed by a newline.
    pub fn render(&self) -> (s: String)
        requires
            self.wf(),
        ensures
            s@ == rendered(self.grid(), self.spec_width(), self.spec_height()),
    {
        let ghost g = self.cells@;
        let ghost w = self.spec_width();
        let mut s = String::new();
        let mut row: u32 = 0;
        while row < self.height
            invariant
                self.wf(),
                g == self.cells@,
                w == self.spec_width(),
                row <= self.height,
                s@ == rows_upto(g, w, row as int),
            decreases self.height - row,
        {
            let mut col: u32 = 0;
            while col < self.width
                invariant
                    self.wf(),
                    g == self.cells@,
                    w == self.spec_width(),
                    row < self.height,
                    col <= self.width,
                    s@ == rows_upto(g, w, row as int) + Seq::new(
                        col as nat,
                        |c: int| glyph(g[flat(w, row as int, c)]),
                    ),
                decreases self.width - col,
            {
                let idx = self.get_index(row, col);
                if self.cells[idx] == Cell::Alive {
                    s.append("◼");
                } else {
                    s.append("◻");
                }
                proof {
                    reveal_strlit("◼");
                    reveal_strlit("◻");
                    assert(s@ =~= rows_upto(g, w, row as int) + Seq::new(
                        (col + 1) as nat,
                        |c: int| glyph(g[flat(w, row as int, c)]),
                    ));
                }
                col += 1;
            }
            s.append("\n");
            proof {
                reveal_strlit("\n");
                assert(Seq::new(
                    self.width as nat,
                    |c: int| glyph(g[flat(w, row as int, c)]),
                ).push('\n') == row_chars(g, w, row as int));
                assert(s@ =~= rows_upto(g, w, row as int + 1));
            }
            row += 1;
        }
        s
    }
}

} // verus!
