//! The grid as a mathematical value, and one generation of Conway's Game of Life on it.
//!
//! Everything here is specification: the executable grid in `universe` states its contracts
//! over these functions, and `laws` proves what follows from them.

use vstd::prelude::*;

verus! {

/// The largest number of cells a grid may have, so that every flat index fits in 32 bits.
pub const MAX_CELLS: u32 = 0xFFFF_FFFF;

/// The width and the height of the default grid.
pub const DEFAULT_SIZE: u32 = 64;

/// Whether a grid of `width` columns and `height` rows can be built: neither dimension is
/// zero and the number of cells is at most `MAX_CELLS`.
pub open spec fn valid_dimensions(width: int, height: int) -> bool {
    &&& width > 0
    &&& height > 0
    &&& width * height <= MAX_CELLS
}

/// The seed pattern: the cell with flat index `i` starts alive when `i` is divisible by 2
/// or by 7.
pub open spec fn seed_alive(i: int) -> bool {
    i % 2 == 0 || i % 7 == 0
}

/// The seed pattern for `n` cells.
pub open spec fn seed_cells(n: nat) -> Seq<bool> {
    Seq::new(n, |i: int| seed_alive(i))
}

/// The rule of the game: a live cell stays alive with two or three live neighbours, a dead
/// cell comes alive with exactly three, and every other cell is dead in the next generation.
pub open spec fn next_state(alive: bool, live_neighbors: int) -> bool {
    if alive {
        live_neighbors == 2 || live_neighbors == 3
    } else {
        live_neighbors == 3
    }
}

/// A grid of `width` columns and `height` rows. `cells` holds the rows one after another;
/// `true` is a live cell.
pub struct Grid {
    pub width: nat,
    pub height: nat,
    pub cells: Seq<bool>,
}

impl Grid {
    /// Both dimensions are positive and there is one entry of `cells` for each cell.
    pub open spec fn wf(self) -> bool {
        &&& self.width > 0
        &&& self.height > 0
        &&& self.cells.len() == self.width * self.height
    }

    /// Well formed and with dimensions that a stored grid can have.
    pub open spec fn fits(self) -> bool {
        &&& self.wf()
        &&& valid_dimensions(self.width as int, self.height as int)
    }

    /// The grid of the given dimensions filled with the seed pattern.
    pub open spec fn seeded(width: nat, height: nat) -> Grid {
        Grid { width, height, cells: seed_cells(width * height) }
    }

    /// The grid of the given dimensions in which every cell is dead.
    pub open spec fn dead(width: nat, height: nat) -> Grid {
        Grid { width, height, cells: Seq::new(width * height, |i: int| false) }
    }

    /// Whether every cell is dead.
    pub open spec fn all_dead(self) -> bool {
        forall|i: int| 0 <= i < self.cells.len() ==> !self.cells[i]
    }

    /// Whether `(row, col)` names a cell of the grid.
    pub open spec fn in_bounds(self, row: int, col: int) -> bool {
        0 <= row < self.height && 0 <= col < self.width
    }

    /// The flat index of the cell at `(row, col)`: rows follow one another without padding.
    pub open spec fn index_of(self, row: int, col: int) -> int {
        row * self.width + col
    }

    /// Whether the cell at `(row, col)` is alive.
    pub open spec fn alive(self, row: int, col: int) -> bool {
        self.cells[self.index_of(row, col)]
    }

    /// What the offset pair `(dr, dc)` adds to the neighbour count of `(row, col)`: nothing
    /// where both offsets are 0, else 1 where the cell `dr` rows and `dc` columns further
    /// on, wrapping round the edges, is alive, and 0 where it is dead.
    pub open spec fn neighbor_term(self, row: int, col: int, dr: int, dc: int) -> int {
        if dr == 0 && dc == 0 {
            0
        } else if self.alive((row + dr) % (self.height as int), (col + dc) % (self.width as int)) {
            1
        } else {
            0
        }
    }

    /// The part of the neighbour count of `(row, col)` that comes with the row offset `dr`:
    /// the sum over the column offsets `width - 1` (the column before), 0 and 1 (the column
    /// after).
    pub open spec fn neighbor_row_sum(self, row: int, col: int, dr: int) -> int {
        self.neighbor_term(row, col, dr, self.width - 1) + self.neighbor_term(row, col, dr, 0)
            + self.neighbor_term(row, col, dr, 1)
    }

    /// The number of live neighbours of `(row, col)` on the torus: the sum over the row
    /// offsets `height - 1` (the row before), 0 and 1 (the row after).
    ///
    /// Each of the nine offset pairs adds 1 where it reaches a live cell, but for the pairs
    /// in which both offsets are 0. With at least two rows and two columns the only such
    /// pair is the one that reaches the cell itself, and the count is the textbook one
    /// (`moore_count`). Where a dimension is 1, its offset to the line before is 0 too: two
    /// pairs are left out in a grid of a single row or a single column, four in a grid of a
    /// single cell. Where a dimension is 1 or 2, several offsets reach the same cell, and it
    /// counts once for each pair that reaches it.
    pub open spec fn live_neighbor_count(self, row: int, col: int) -> int {
        self.neighbor_row_sum(row, col, self.height - 1) + self.neighbor_row_sum(row, col, 0)
            + self.neighbor_row_sum(row, col, 1)
    }

    /// The textbook count of the live cells among the eight around `(row, col)` on the torus:
    /// the sum over the row offsets -1, 0, 1 and the column offsets -1, 0, 1 without the
    /// pair `(0, 0)`. In a grid with at least two rows and two columns
    /// `live_neighbor_count` is this number.
    pub open spec fn moore_count(self, row: int, col: int) -> int {
        self.moore_term(row, col, -1, -1) + self.moore_term(row, col, -1, 0) + self.moore_term(
            row,
            col,
            -1,
            1,
        ) + self.moore_term(row, col, 0, -1) + self.moore_term(row, col, 0, 1) + self.moore_term(
            row,
            col,
            1,
            -1,
        ) + self.moore_term(row, col, 1, 0) + self.moore_term(row, col, 1, 1)
    }

    /// 1 when the cell `dr` rows and `dc` columns from `(row, col)`, wrapping round the
    /// edges, is alive, and 0 when it is dead.
    pub open spec fn moore_term(self, row: int, col: int, dr: int, dc: int) -> int {
        if self.alive((row + dr) % (self.height as int), (col + dc) % (self.width as int)) {
            1
        } else {
            0
        }
    }

    /// The state in the next generation of the cell with flat index `i`, which lies in row
    /// `i / width` and column `i % width`.
    pub open spec fn next_cell(self, i: int) -> bool {
        next_state(
            self.cells[i],
            self.live_neighbor_count(i / (self.width as int), i % (self.width as int)),
        )
    }

    /// The next generation: every cell is replaced at once by its `next_cell`.
    pub open spec fn tick(self) -> Grid {
        Grid {
            width: self.width,
            height: self.height,
            cells: Seq::new(self.cells.len(), |i: int| self.next_cell(i)),
        }
    }

    /// Whether every pair of `coords`, read as `(row, column)`, names a cell of the grid.
    pub open spec fn all_in_bounds(self, coords: Seq<(u32, u32)>) -> bool {
        forall|k: int| 0 <= k < coords.len() ==> self.in_bounds(
            (#[trigger] coords[k]).0 as int,
            coords[k].1 as int,
        )
    }

    /// Whether one of `coords`, read as `(row, column)`, is the cell with flat index `i`.
    pub open spec fn marks(self, coords: Seq<(u32, u32)>, i: int) -> bool {
        exists|k: int|
            0 <= k < coords.len() && self.index_of(
                (#[trigger] coords[k]).0 as int,
                coords[k].1 as int,
            ) == i
    }

    /// The grid with the cells named by `coords` alive and every other cell as it was.
    pub open spec fn with_alive(self, coords: Seq<(u32, u32)>) -> Grid {
        Grid {
            width: self.width,
            height: self.height,
            cells: Seq::new(self.cells.len(), |i: int| self.cells[i] || self.marks(coords, i)),
        }
    }
}

} // verus!
