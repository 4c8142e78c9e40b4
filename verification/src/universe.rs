//! The executable grid: dimensions and one bit for each cell in a `FixedBitSet`.

use crate::bitset::{as_slice, bit_at, bit_seq, clone_set, packs, set_bit, with_capacity};
use crate::error::GridError;
use crate::laws::{lemma_index_of_cell, lemma_with_alive_empty, lemma_with_alive_step};
use crate::model::{next_state, seed_alive, seed_cells, valid_dimensions, Grid, DEFAULT_SIZE};
use fixedbitset::FixedBitSet;
use vstd::prelude::*;

verus! {

/// A toroidal grid of cells.
///
/// A value of this type always has valid dimensions and exactly `width * height` cells: its
/// view is a grid that `fits`.
#[derive(Debug)]
pub struct Universe {
    width: u32,
    height: u32,
    cells: FixedBitSet,
}

impl View for Universe {
    type V = Grid;

    closed spec fn view(&self) -> Grid {
        Grid { width: self.width as nat, height: self.height as nat, cells: bit_seq(self.cells) }
    }
}

/// A set of `size` bits that holds the seed pattern.
fn seeded_cells(size: usize) -> (cells: FixedBitSet)
    ensures
        bit_seq(cells) == seed_cells(size as nat),
{
    let mut cells = with_capacity(size);
    let mut i: usize = 0;
    while i < size
        invariant
            i <= size,
            bit_seq(cells).len() == size,
            forall|k: int| 0 <= k < i ==> bit_seq(cells)[k] == seed_alive(k),
        decreases size - i,
    {
        set_bit(&mut cells, i, i % 2 == 0 || i % 7 == 0);
        i += 1;
    }
    cells
}

impl Default for Universe {
    /// The grid of `DEFAULT_SIZE` columns and rows that holds the seed pattern.
    fn default() -> (u: Universe)
        ensures
            u@ == Grid::seeded(DEFAULT_SIZE as nat, DEFAULT_SIZE as nat),
            u@.fits(),
    {
        let cells = seeded_cells((DEFAULT_SIZE * DEFAULT_SIZE) as usize);
        Universe { width: DEFAULT_SIZE, height: DEFAULT_SIZE, cells }
    }
}

impl Universe {
    /// What holds of every value of the type: the dimensions are valid and there is one bit
    /// for each cell.
    #[verifier::type_invariant]
    spec fn inv(self) -> bool {
        &&& valid_dimensions(self.width as int, self.height as int)
        &&& bit_seq(self.cells).len() == self.width * self.height
    }

    /// A grid of `width` columns and `height` rows that holds the seed pattern, or
    /// `InvalidDimensions` where no grid has these dimensions.
    pub fn new(width: u32, height: u32) -> (r: Result<Universe, GridError>)
        ensures
            r is Ok <==> valid_dimensions(width as int, height as int),
            r matches Ok(u) ==> u@ == Grid::seeded(width as nat, height as nat) && u@.fits(),
            r matches Err(e) ==> e == GridError::InvalidDimensions,
    {
        if width == 0 || height == 0 {
            return Err(GridError::InvalidDimensions);
        }
        match width.checked_mul(height) {
            Some(size) => {
                let cells = seeded_cells(size as usize);
                Ok(Universe { width, height, cells })
            },
            None => Err(GridError::InvalidDimensions),
        }
    }

    /// The flat index of the cell at `(row, column)`, which the caller guarantees to be a
    /// cell of the grid; no bounds are checked here.
    pub fn get_index(&self, row: u32, column: u32) -> (idx: usize)
        requires
            self@.in_bounds(row as int, column as int),
        ensures
            idx == self@.index_of(row as int, column as int),
            idx < self@.cells.len(),
    {
        proof {
            use_type_invariant(self);
            lemma_index_of_cell(self@, row as int, column as int);
        }
        (row * self.width + column) as usize
    }

    /// The number of live neighbours of the cell at `(row, column)` on the torus, which the
    /// caller guarantees to be a cell of the grid.
    pub fn live_neighbor_count(&self, row: u32, column: u32) -> (count: u8)
        requires
            self@.in_bounds(row as int, column as int),
        ensures
            count == self@.live_neighbor_count(row as int, column as int),
            count <= 8,
    {
        proof {
            use_type_invariant(self);
        }
        let ghost g = self@;
        let ghost r = row as int;
        let ghost c = column as int;
        let row_offsets: [u32; 3] = [self.height - 1, 0, 1];
        let col_offsets: [u32; 3] = [self.width - 1, 0, 1];
        let mut count: u8 = 0;
        let mut i: usize = 0;
        while i < 3
            invariant
                i <= 3,
                g == self@,
                g.fits(),
                r == row && c == column,
                g.in_bounds(r, c),
                row_offsets@ == seq![(g.height - 1) as u32, 0u32, 1u32],
                col_offsets@ == seq![(g.width - 1) as u32, 0u32, 1u32],
                count <= 3 * i,
                count == (if i > 0 { g.neighbor_row_sum(r, c, g.height - 1) } else { 0 })
                    + (if i > 1 { g.neighbor_row_sum(r, c, 0) } else { 0 })
                    + (if i > 2 { g.neighbor_row_sum(r, c, 1) } else { 0 }),
            decreases 3 - i,
        {
            let delta_row = row_offsets[i];
            let ghost before = count as int;
            let mut j: usize = 0;
            while j < 3
                invariant
                    j <= 3,
                    g == self@,
                    g.fits(),
                    r == row && c == column,
                g.in_bounds(r, c),
                    col_offsets@ == seq![(g.width - 1) as u32, 0u32, 1u32],
                    before <= 6,
                    count <= before + j,
                    count == before
                        + (if j > 0 { g.neighbor_term(r, c, delta_row as int, g.width - 1) } else { 0 })
                        + (if j > 1 { g.neighbor_term(r, c, delta_row as int, 0) } else { 0 })
                        + (if j > 2 { g.neighbor_term(r, c, delta_row as int, 1) } else { 0 }),
                decreases 3 - j,
            {
                let delta_col = col_offsets[j];
                if !(delta_row == 0 && delta_col == 0) {
                    let neighbor_row = ((row as u64 + delta_row as u64) % (self.height as u64)) as u32;
                    let neighbor_col = ((column as u64 + delta_col as u64) % (self.width as u64)) as u32;
                    let idx = self.get_index(neighbor_row, neighbor_col);
                    if bit_at(&self.cells, idx) {
                        count += 1;
                    }
                }
                j += 1;
            }
            i += 1;
        }
        count
    }

    /// Replaces the grid by its next generation. Every new cell is computed from the grid as
    /// it was before the call, and the dimensions stay as they are.
    pub fn tick(&mut self)
        ensures
            final(self)@ == old(self)@.tick(),
            final(self)@.width == old(self)@.width,
            final(self)@.height == old(self)@.height,
            final(self)@.cells.len() == old(self)@.width * old(self)@.height,
            final(self)@.fits(),
            forall|row: int, col: int|
                old(self)@.in_bounds(row, col) ==> #[trigger] final(self)@.alive(row, col)
                    == next_state(
                    old(self)@.alive(row, col),
                    old(self)@.live_neighbor_count(row, col),
                ),
    {
        proof {
            use_type_invariant(&*self);
        }
        let ghost g = self@;
        let mut next = clone_set(&self.cells);
        let mut row: u32 = 0;
        while row < self.height
            invariant
                row <= self.height,
                self@ == g,
                g.wf(),
                bit_seq(next).len() == g.cells.len(),
                forall|k: int| 0 <= k < row * g.width ==> bit_seq(next)[k] == g.next_cell(k),
            decreases self.height - row,
        {
            let mut col: u32 = 0;
            while col < self.width
                invariant
                    row < self.height,
                    col <= self.width,
                    self@ == g,
                    g.wf(),
                    bit_seq(next).len() == g.cells.len(),
                    forall|k: int|
                        0 <= k < row * g.width + col ==> bit_seq(next)[k] == g.next_cell(k),
                decreases self.width - col,
            {
                let idx = self.get_index(row, col);
                let cell = bit_at(&self.cells, idx);
                let live_neighbors = self.live_neighbor_count(row, col);
                proof {
                    lemma_index_of_cell(g, row as int, col as int);
                }
                set_bit(
                    &mut next,
                    idx,
                    match (cell, live_neighbors) {
                        (true, x) if x < 2 => false,
                        (true, 2) | (true, 3) => true,
                        (true, x) if x > 3 => false,
                        (false, 3) => true,
                        (otherwise, _) => otherwise,
                    },
                );
                col += 1;
            }
            assert(row * g.width + g.width == (row + 1) * g.width) by (nonlinear_arith);
            row += 1;
        }
        assert(bit_seq(next) =~= g.tick().cells);
        self.cells = next;
        assert forall|row: int, col: int| g.in_bounds(row, col) implies #[trigger] self@.alive(
            row,
            col,
        ) == next_state(g.alive(row, col), g.live_neighbor_count(row, col)) by {
            lemma_index_of_cell(g, row, col);
        }
    }

    /// Makes the cells at the given `(row, column)` coordinates alive and leaves every other
    /// cell as it was. Where a coordinate names no cell of the grid, nothing is changed and
    /// the answer is `OutOfRange`. With no coordinates at all the grid stays as it is.
    pub fn set_cells(&mut self, cells: &[(u32, u32)]) -> (r: Result<(), GridError>)
        ensures
            r is Ok <==> old(self)@.all_in_bounds(cells@),
            r is Ok ==> final(self)@ == old(self)@.with_alive(cells@),
            r matches Err(e) ==> e == GridError::OutOfRange && final(self)@ == old(self)@,
            cells@.len() == 0 ==> r is Ok && final(self)@ == old(self)@,
            final(self)@.fits(),
    {
        proof {
            use_type_invariant(&*self);
        }
        let ghost g = self@;
        let mut next = clone_set(&self.cells);
        proof {
            lemma_with_alive_empty(g);
            assert(cells@.take(0) =~= Seq::empty());
        }
        let mut k: usize = 0;
        while k < cells.len()
            invariant
                k <= cells.len(),
                self@ == g,
                g.fits(),
                forall|j: int|
                    0 <= j < k ==> g.in_bounds((#[trigger] cells@[j]).0 as int, cells@[j].1 as int),
                bit_seq(next) == g.with_alive(cells@.take(k as int)).cells,
            decreases cells.len() - k,
        {
            let (row, col) = cells[k];
            if row >= self.height || col >= self.width {
                return Err(GridError::OutOfRange);
            }
            let idx = self.get_index(row, col);
            proof {
                lemma_with_alive_step(g, cells@, k as int);
            }
            set_bit(&mut next, idx, true);
            k += 1;
        }
        assert(cells@.take(cells@.len() as int) =~= cells@);
        self.cells = next;
        Ok(())
    }

    /// Gives the grid `width` columns and makes every cell dead; `reseed` then brings the seed
    /// pattern back. Where the grid cannot have that width, nothing is changed and the answer
    /// is `InvalidDimensions`.
    pub fn set_width(&mut self, width: u32) -> (r: Result<(), GridError>)
        ensures
            r is Ok <==> valid_dimensions(width as int, old(self)@.height as int),
            r is Ok ==> final(self)@ == Grid::dead(width as nat, old(self)@.height),
            r is Ok ==> final(self)@.cells.len() == width * old(self)@.height,
            r matches Err(e) ==> e == GridError::InvalidDimensions && final(self)@ == old(self)@,
            final(self)@.fits(),
    {
        proof {
            use_type_invariant(&*self);
        }
        if width == 0 {
            return Err(GridError::InvalidDimensions);
        }
        match width.checked_mul(self.height) {
            Some(size) => {
                let cells = with_capacity(size as usize);
                assert(bit_seq(cells) =~= Grid::dead(width as nat, self.height as nat).cells);
                *self = Universe { width, height: self.height, cells };
                Ok(())
            },
            None => Err(GridError::InvalidDimensions),
        }
    }

    /// Gives the grid `height` rows and makes every cell dead; `reseed` then brings the seed
    /// pattern back. Where the grid cannot have that height, nothing is changed and the answer
    /// is `InvalidDimensions`.
    pub fn set_height(&mut self, height: u32) -> (r: Result<(), GridError>)
        ensures
            r is Ok <==> valid_dimensions(old(self)@.width as int, height as int),
            r is Ok ==> final(self)@ == Grid::dead(old(self)@.width, height as nat),
            r is Ok ==> final(self)@.cells.len() == old(self)@.width * height,
            r matches Err(e) ==> e == GridError::InvalidDimensions && final(self)@ == old(self)@,
            final(self)@.fits(),
    {
        proof {
            use_type_invariant(&*self);
        }
        if height == 0 {
            return Err(GridError::InvalidDimensions);
        }
        match self.width.checked_mul(height) {
            Some(size) => {
                let cells = with_capacity(size as usize);
                assert(bit_seq(cells) =~= Grid::dead(self.width as nat, height as nat).cells);
                *self = Universe { width: self.width, height, cells };
                Ok(())
            },
            None => Err(GridError::InvalidDimensions),
        }
    }

    /// The packed cells: one bit for each cell in the order of their flat indices, 32 to a
    /// block. The borrow ends before the grid can change again.
    pub fn cells(&self) -> (blocks: &[u32])
        ensures
            packs(blocks@, self@.cells),
            self@.fits(),
    {
        proof {
            use_type_invariant(self);
        }
        as_slice(&self.cells)
    }

    /// The dead and alive values of the entire grid, packed as `cells` gives them.
    pub fn get_cells(&self) -> (blocks: &[u32])
        ensures
            packs(blocks@, self@.cells),
            self@.fits(),
    {
        self.cells()
    }

    /// Fills the grid with the seed pattern, as a new grid of the same dimensions holds it.
    /// The dimensions stay as they are.
    pub fn reseed(&mut self)
        ensures
            final(self)@ == Grid::seeded(old(self)@.width, old(self)@.height),
            final(self)@.fits(),
    {
        proof {
            use_type_invariant(&*self);
        }
        let size = self.width * self.height;
        self.cells = seeded_cells(size as usize);
    }

    /// The number of columns.
    pub fn width(&self) -> (w: u32)
        ensures
            w == self@.width,
            self@.fits(),
    {
        proof {
            use_type_invariant(self);
        }
        self.width
    }

    /// The number of rows.
    pub fn height(&self) -> (h: u32)
        ensures
            h == self@.height,
            self@.fits(),
    {
        proof {
            use_type_invariant(self);
        }
        self.height
    }
}

} // verus!
