//! What holds of every grid: the laws of indexing, of the neighbour count and of a generation.

use crate::model::{next_state, Grid};
use vstd::arithmetic::div_mod::{
    lemma_fundamental_div_mod, lemma_fundamental_div_mod_converse,
    lemma_mod_add_multiples_vanish, lemma_mod_bound, lemma_mod_self_0, lemma_small_mod,
};
use vstd::prelude::*;

verus! {

/// A cell of the grid has a flat index below the number of cells, and its row and column
/// are the quotient and the remainder of that index by the width.
pub proof fn lemma_index_of_cell(g: Grid, row: int, col: int)
    requires
        g.wf(),
        g.in_bounds(row, col),
    ensures
        0 <= g.index_of(row, col) < g.cells.len(),
        g.index_of(row, col) / (g.width as int) == row,
        g.index_of(row, col) % (g.width as int) == col,
{
    let w = g.width as int;
    let h = g.height as int;
    assert(0 <= row * w && row * w + w <= h * w) by (nonlinear_arith)
        requires
            0 <= row < h,
            0 < w,
    ;
    assert(h * w == w * h) by (nonlinear_arith);
    lemma_fundamental_div_mod_converse(row * w + col, w, row, col);
}

/// A flat index below the number of cells names the cell in row `i / width` and column
/// `i % width`, and that cell has the flat index `i`.
pub proof fn lemma_cell_of_index(g: Grid, i: int)
    requires
        g.wf(),
        0 <= i < g.cells.len(),
    ensures
        g.in_bounds(i / (g.width as int), i % (g.width as int)),
        g.index_of(i / (g.width as int), i % (g.width as int)) == i,
{
    let w = g.width as int;
    let h = g.height as int;
    lemma_fundamental_div_mod(i, w);
    lemma_mod_bound(i, w);
    let q = i / w;
    assert(w * q == q * w) by (nonlinear_arith);
    assert(0 <= q < h) by (nonlinear_arith)
        requires
            0 <= i < w * h,
            i == q * w + i % w,
            0 <= i % w < w,
            0 < w,
    ;
}

/// Marking one more coordinate sets the bit at its flat index and changes no other cell.
pub proof fn lemma_with_alive_step(g: Grid, coords: Seq<(u32, u32)>, k: int)
    requires
        0 <= k < coords.len(),
        0 <= g.index_of(coords[k].0 as int, coords[k].1 as int) < g.cells.len(),
    ensures
        g.with_alive(coords.take(k + 1)).cells == g.with_alive(coords.take(k)).cells.update(
            g.index_of(coords[k].0 as int, coords[k].1 as int),
            true,
        ),
{
    let shorter = coords.take(k);
    let longer = coords.take(k + 1);
    let idx = g.index_of(coords[k].0 as int, coords[k].1 as int);
    assert forall|i: int| 0 <= i < g.cells.len() implies #[trigger] g.with_alive(longer).cells[i]
        == g.with_alive(shorter).cells.update(idx, true)[i] by {
        if g.marks(longer, i) {
            let j = choose|j: int|
                0 <= j < longer.len() && g.index_of(
                    (#[trigger] longer[j]).0 as int,
                    longer[j].1 as int,
                ) == i;
            if j < k {
                assert(shorter[j] == longer[j]);
                assert(g.marks(shorter, i));
            }
        }
        if g.marks(shorter, i) {
            let j = choose|j: int|
                0 <= j < shorter.len() && g.index_of(
                    (#[trigger] shorter[j]).0 as int,
                    shorter[j].1 as int,
                ) == i;
            assert(longer[j] == shorter[j]);
            assert(g.marks(longer, i));
        }
        if i == idx {
            assert(longer[k] == coords[k]);
            assert(g.marks(longer, i));
        }
    }
    assert(g.with_alive(longer).cells =~= g.with_alive(shorter).cells.update(idx, true));
}

/// Marking no coordinate at all leaves the grid as it is.
pub proof fn lemma_with_alive_empty(g: Grid)
    ensures
        g.with_alive(Seq::empty()) == g,
{
    assert(g.with_alive(Seq::empty()).cells =~= g.cells);
}

/// In a grid whose coordinates are all in bounds, a cell is alive after marking exactly when
/// it was alive before or its own coordinates are among those marked.
pub proof fn lemma_with_alive_cell(g: Grid, coords: Seq<(u32, u32)>, row: int, col: int)
    requires
        g.wf(),
        g.all_in_bounds(coords),
        g.in_bounds(row, col),
    ensures
        g.with_alive(coords).alive(row, col) == (g.alive(row, col) || exists|k: int|
            0 <= k < coords.len() && (#[trigger] coords[k]).0 == row && coords[k].1 == col),
{
    let i = g.index_of(row, col);
    lemma_index_of_cell(g, row, col);
    if g.marks(coords, i) {
        let k = choose|k: int|
            0 <= k < coords.len() && g.index_of(
                (#[trigger] coords[k]).0 as int,
                coords[k].1 as int,
            ) == i;
        lemma_index_of_cell(g, coords[k].0 as int, coords[k].1 as int);
    }
    if exists|k: int| 0 <= k < coords.len() && (#[trigger] coords[k]).0 == row && coords[k].1 == col {
        let k = choose|k: int|
            0 <= k < coords.len() && (#[trigger] coords[k]).0 == row && coords[k].1 == col;
        assert(g.index_of(coords[k].0 as int, coords[k].1 as int) == i);
        assert(g.marks(coords, i));
    }
}

/// On the torus the line before line 0 is the last line and the line after the last line
/// is line 0; every other line has the lines next to it as its neighbours. The offset 0
/// stays on the line.
pub proof fn lemma_wrap(dim: int, k: int)
    requires
        0 <= k < dim,
    ensures
        (k + (dim - 1)) % dim == (if k == 0 { dim - 1 } else { k - 1 }),
        (k + 1) % dim == (if k == dim - 1 { 0 } else { k + 1 }),
        (k + 0) % dim == k,
{
    lemma_small_mod(k as nat, dim as nat);
    if k == 0 {
        lemma_small_mod((dim - 1) as nat, dim as nat);
    } else {
        lemma_mod_add_multiples_vanish(k - 1, dim);
        lemma_small_mod((k - 1) as nat, dim as nat);
    }
    if k == dim - 1 {
        lemma_mod_self_0(dim);
    } else {
        lemma_small_mod((k + 1) as nat, dim as nat);
    }
}

/// A neighbour count is a number from 0 to 8.
pub proof fn lemma_neighbor_count_bounds(g: Grid, row: int, col: int)
    ensures
        0 <= g.live_neighbor_count(row, col) <= 8,
{
}

/// Every live cell that one of the offset pairs reaches is counted.
pub proof fn lemma_live_neighbor_is_counted(g: Grid, row: int, col: int, dr: int, dc: int)
    requires
        dr == g.height - 1 || dr == 0 || dr == 1,
        dc == g.width - 1 || dc == 0 || dc == 1,
        !(dr == 0 && dc == 0),
        g.alive((row + dr) % (g.height as int), (col + dc) % (g.width as int)),
    ensures
        g.live_neighbor_count(row, col) >= 1,
{
    assert(g.neighbor_term(row, col, dr, dc) == 1);
}

/// In a grid with at least two rows and two columns the count is the textbook one: each of
/// the eight cells around a cell counts once for each offset pair that reaches it.
pub proof fn lemma_count_is_moore(g: Grid, row: int, col: int)
    requires
        g.height >= 2,
        g.width >= 2,
    ensures
        g.live_neighbor_count(row, col) == g.moore_count(row, col),
{
    let w = g.width as int;
    let h = g.height as int;
    lemma_mod_add_multiples_vanish(row - 1, h);
    lemma_mod_add_multiples_vanish(col - 1, w);
    assert(row + (h - 1) == h + (row - 1));
    assert(col + (w - 1) == w + (col - 1));
    assert(g.neighbor_term(row, col, h - 1, w - 1) == g.moore_term(row, col, -1, -1));
    assert(g.neighbor_term(row, col, h - 1, 0) == g.moore_term(row, col, -1, 0));
    assert(g.neighbor_term(row, col, h - 1, 1) == g.moore_term(row, col, -1, 1));
    assert(g.neighbor_term(row, col, 0, w - 1) == g.moore_term(row, col, 0, -1));
    assert(g.neighbor_term(row, col, 1, w - 1) == g.moore_term(row, col, 1, -1));
}

/// The count is toroidal: the cell in the last row and last column is a diagonal neighbour
/// of the cell at `(0, 0)`, so where it is alive the cell at `(0, 0)` has a live neighbour.
pub proof fn lemma_corner_wraps(g: Grid)
    requires
        g.wf(),
        g.alive(g.height - 1, g.width - 1),
    ensures
        g.live_neighbor_count(0, 0) >= 1,
{
    let w = g.width as int;
    let h = g.height as int;
    if h == 1 && w == 1 {
        assert(g.neighbor_term(0, 0, 1, 1) == 1);
    } else {
        assert((h - 1) % h == h - 1) by {
            lemma_small_mod((h - 1) as nat, h as nat);
        }
        assert((w - 1) % w == w - 1) by {
            lemma_small_mod((w - 1) as nat, w as nat);
        }
        assert(g.neighbor_term(0, 0, h - 1, w - 1) == 1);
    }
}

/// A cleared grid and a seeded grid of positive dimensions are well formed and have exactly
/// `width * height` cells; in the cleared one every cell is dead.
pub proof fn lemma_fresh_grids(width: nat, height: nat)
    requires
        width > 0,
        height > 0,
    ensures
        Grid::dead(width, height).wf(),
        Grid::dead(width, height).cells.len() == width * height,
        Grid::dead(width, height).all_dead(),
        Grid::seeded(width, height).wf(),
        Grid::seeded(width, height).cells.len() == width * height,
{
}

/// One generation keeps the dimensions and the number of cells, which is `width * height`.
pub proof fn lemma_tick_keeps_shape(g: Grid)
    requires
        g.wf(),
    ensures
        g.tick().width == g.width,
        g.tick().height == g.height,
        g.tick().cells.len() == g.width * g.height,
        g.tick().wf(),
{
}

/// The rule of the game, cell by cell: a live cell with two or three live neighbours stays
/// alive and any other live cell dies; a dead cell with exactly three live neighbours comes
/// alive and any other dead cell stays dead.
pub proof fn lemma_tick_rule(g: Grid, row: int, col: int)
    requires
        g.wf(),
        g.in_bounds(row, col),
    ensures
        g.tick().alive(row, col) == next_state(g.alive(row, col), g.live_neighbor_count(row, col)),
        g.alive(row, col) && (g.live_neighbor_count(row, col) == 2 || g.live_neighbor_count(
            row,
            col,
        ) == 3) ==> g.tick().alive(row, col),
        g.alive(row, col) && (g.live_neighbor_count(row, col) < 2 || g.live_neighbor_count(
            row,
            col,
        ) > 3) ==> !g.tick().alive(row, col),
        !g.alive(row, col) && g.live_neighbor_count(row, col) == 3 ==> g.tick().alive(row, col),
        !g.alive(row, col) && g.live_neighbor_count(row, col) != 3 ==> !g.tick().alive(row, col),
{
    lemma_index_of_cell(g, row, col);
}

/// A grid without a live cell has no live neighbours anywhere.
pub proof fn lemma_all_dead_no_neighbors(g: Grid, row: int, col: int)
    requires
        g.wf(),
        g.all_dead(),
    ensures
        g.live_neighbor_count(row, col) == 0,
{
    let w = g.width as int;
    let h = g.height as int;
    assert forall|dr: int, dc: int| #[trigger] g.neighbor_term(row, col, dr, dc) == 0 by {
        lemma_mod_bound(row + dr, h);
        lemma_mod_bound(col + dc, w);
        lemma_index_of_cell(g, (row + dr) % h, (col + dc) % w);
    }
}

/// No spontaneous life: the generation after a grid without a live cell is that same grid.
pub proof fn lemma_tick_all_dead(g: Grid)
    requires
        g.wf(),
        g.all_dead(),
    ensures
        g.tick().all_dead(),
        g.tick() == g,
{
    assert forall|i: int| 0 <= i < g.cells.len() implies !(#[trigger] g.tick().cells[i]) by {
        lemma_all_dead_no_neighbors(g, i / (g.width as int), i % (g.width as int));
    }
    assert(g.tick().cells =~= g.cells);
}

} // verus!
