use vstd::prelude::*;

verus! {

use vstd::arithmetic::div_mod::lemma_fundamental_div_mod;
use vstd::arithmetic::div_mod::lemma_mod_bound;
use crate::cell::Cell;
use crate::cell::flipped;
use crate::cell::live;
use crate::rules::flat;
use crate::rules::lemma_wrap_values;
use crate::rules::neighbor_count;
use crate::rules::next_cell;
use crate::rules::offset_term;
use crate::rules::ticked;
use crate::rules::toggled;
use crate::rules::wrap_dec;
use crate::rules::wrap_inc;

/// Toggling a cell is its own inverse: flipping the same position twice
/// restores the original grid, and no other cell is affected.
pub proof fn lemma_toggle_twice(g: Seq<Cell>, i: int)
    requires
        0 <= i < g.len(),
    ensures
        toggled(toggled(g, i), i) == g,
{
    assert(flipped(flipped(g[i])) == g[i]);
    assert(toggled(toggled(g, i), i) =~= g);
}

/// Wraparound correctness: on an `n`-by-`n` grid, a live cell at `(0, 0)`
/// is counted as a neighbor of `(n-1, n-1)`, of `(n-1, 0)` and of
/// `(0, n-1)`, so each of those cells sees at least one live neighbor.
pub proof fn lemma_wraparound_corner(g: Seq<Cell>, n: int)
    requires
        1 <= n,
        g.len() == n * n,
        g[0] is Alive,
    ensures
        neighbor_count(g, n, n, n - 1, n - 1) >= 1,
        neighbor_count(g, n, n, n - 1, 0) >= 1,
        neighbor_count(g, n, n, 0, n - 1) >= 1,
{
    assert(n % n == 0 && 0int % n == 0) by (nonlinear_arith)
        requires
            1 <= n,
    ;
    assert(flat(n, 0, 0) == 0);
    assert(offset_term(g, n, n, n - 1, n - 1, 1, 1) == 1);
    assert(offset_term(g, n, n, n - 1, 0, 1, 0) == 1);
    assert(offset_term(g, n, n, 0, n - 1, 0, 1) == 1);
    assert(forall|c: Cell| live(c) >= 0);
}

/// The exact wraparound counts: on an `n`-by-`n` grid, `n` at least 3,
/// whose only live cell is `(0, 0)`, each of the three opposite corner
/// cells counts exactly one live neighbor — the cell at `(0, 0)`, reached
/// through the toroidal wrap.
pub proof fn lemma_lone_corner_neighbor_counts(g: Seq<Cell>, n: int)
    requires
        3 <= n,
        g.len() == n * n,
        forall|i: int, j: int|
            0 <= i < n && 0 <= j < n ==> (g[flat(n, i, j)] is Alive <==> (i == 0 && j == 0)),
    ensures
        neighbor_count(g, n, n, n - 1, n - 1) == 1,
        neighbor_count(g, n, n, n - 1, 0) == 1,
        neighbor_count(g, n, n, 0, n - 1) == 1,
{
    assert((n - 1 + (n - 1)) % n == n - 2) by (nonlinear_arith)
        requires
            3 <= n,
    ;
    assert((n - 1) % n == n - 1 && n % n == 0 && 0int % n == 0 && 1int % n == 1) by (nonlinear_arith)
        requires
            3 <= n,
    ;
    assert(neighbor_count(g, n, n, n - 1, n - 1) == 1);
    assert(neighbor_count(g, n, n, n - 1, 0) == 1);
    assert(neighbor_count(g, n, n, 0, n - 1) == 1);
}

/// The cells of the 2-by-2 block whose top-left corner is `(r, c)` are
/// alive, and no other cell is.
pub open spec fn block_only(g: Seq<Cell>, width: int, height: int, r: int, c: int) -> bool {
    forall|i: int, j: int|
        0 <= i < height && 0 <= j < width ==> (g[flat(width, i, j)] is Alive <==> (r <= i <= r + 1
            && c <= j <= c + 1))
}

/// One cell of a block-only grid is unchanged by the rule: a block cell has
/// exactly 3 live neighbors and survives, and every other cell sees at most
/// 2 live neighbors and stays dead.
proof fn lemma_block_cell(g: Seq<Cell>, width: int, height: int, r: int, c: int, i: int, j: int)
    requires
        4 <= width,
        4 <= height,
        g.len() == width * height,
        0 <= r <= height - 2,
        0 <= c <= width - 2,
        block_only(g, width, height, r, c),
        0 <= i < height,
        0 <= j < width,
    ensures
        next_cell(g, width, height, i, j) == g[flat(width, i, j)],
{
    lemma_wrap_values(i, height);
    lemma_wrap_values(j, width);
    assert(i % height == i && j % width == j) by (nonlinear_arith)
        requires
            0 <= i < height,
            0 <= j < width,
    ;
    let iu = wrap_dec(i, height);
    let id = wrap_inc(i, height);
    let jl = wrap_dec(j, width);
    let jr = wrap_inc(j, width);
    assert(0 <= iu < height && 0 <= id < height && 0 <= jl < width && 0 <= jr < width);
    // the state of each of the 8 neighbors, from the block-only hypothesis
    assert(g[flat(width, iu, jl)] is Alive <==> (r <= iu <= r + 1 && c <= jl <= c + 1));
    assert(g[flat(width, iu, j)] is Alive <==> (r <= iu <= r + 1 && c <= j <= c + 1));
    assert(g[flat(width, iu, jr)] is Alive <==> (r <= iu <= r + 1 && c <= jr <= c + 1));
    assert(g[flat(width, i, jl)] is Alive <==> (r <= i <= r + 1 && c <= jl <= c + 1));
    assert(g[flat(width, i, jr)] is Alive <==> (r <= i <= r + 1 && c <= jr <= c + 1));
    assert(g[flat(width, id, jl)] is Alive <==> (r <= id <= r + 1 && c <= jl <= c + 1));
    assert(g[flat(width, id, j)] is Alive <==> (r <= id <= r + 1 && c <= j <= c + 1));
    assert(g[flat(width, id, jr)] is Alive <==> (r <= id <= r + 1 && c <= jr <= c + 1));
    assert(g[flat(width, i, j)] is Alive <==> (r <= i <= r + 1 && c <= j <= c + 1));
    if r <= i <= r + 1 && c <= j <= c + 1 {
        assert(neighbor_count(g, width, height, i, j) == 3);
    } else {
        assert(neighbor_count(g, width, height, i, j) <= 2);
    }
}

/// Still life: a 2-by-2 fully-alive block anywhere on a grid of size at
/// least 4-by-4, with no other live cells, is unchanged by one generation
/// step.
pub proof fn lemma_block_still_life(g: Seq<Cell>, width: int, height: int, r: int, c: int)
    requires
        4 <= width,
        4 <= height,
        g.len() == width * height,
        0 <= r <= height - 2,
        0 <= c <= width - 2,
        block_only(g, width, height, r, c),
    ensures
        ticked(g, width, height) == g,
{
    assert forall|k: int| 0 <= k < g.len() implies ticked(g, width, height)[k] == g[k] by {
        lemma_mod_bound(k, width);
        lemma_fundamental_div_mod(k, width);
        let q = k / width;
        let rem = k % width;
        assert(0 <= q < height) by (nonlinear_arith)
            requires
                k == width * q + rem,
                0 <= rem < width,
                0 <= k < width * height,
        ;
        assert(q * width == width * q) by (nonlinear_arith);
        assert(flat(width, q, rem) == k);
        crate::rules::lemma_ticked_at(g, width, height, q, rem);
        lemma_block_cell(g, width, height, r, c, q, rem);
    }
    assert(ticked(g, width, height) =~= g);
}

} // verus!
