//! The executable grid engine.

use crate::grid::Grid;
use crate::render::{DEAD_GLYPH, LINE_BREAK, LIVE_GLYPH};
use crate::rng::{nth_bit, state_after, Xorshift64Star};
use vstd::prelude::*;

verus! {

/// Why a pair of dimensions cannot be used to build a universe.
#[derive(Clone, Copy, Debug, PartialEq, Eq)]
pub enum DimensionError {
    /// The width or the height is zero.
    ZeroDimension,
    /// The number of cells, `width * height`, does not fit in 32 bits.
    TooLarge,
}

/// What is wrong with the dimensions, if anything.
pub open spec fn dimension_error(width: u32, height: u32) -> Option<DimensionError> {
    if width == 0 || height == 0 {
        Some(DimensionError::ZeroDimension)
    } else if width * height > u32::MAX {
        Some(DimensionError::TooLarge)
    } else {
        None
    }
}

/// Tells whether a universe of this size can be built.
pub fn check_dimensions(width: u32, height: u32) -> (result: Result<(), DimensionError>)
    ensures
        result == match dimension_error(width, height) {
            Some(e) => Err::<(), DimensionError>(e),
            None => Ok::<(), DimensionError>(()),
        },
{
    if width == 0 || height == 0 {
        Err(DimensionError::ZeroDimension)
    } else {
        match width.checked_mul(height) {
            Some(_) => Ok(()),
            None => Err(DimensionError::TooLarge),
        }
    }
}

/// The byte that stores a cell: 1 for a live cell, 0 for a dead one.
pub open spec fn state_byte(alive: bool) -> u8 {
    if alive {
        1
    } else {
        0
    }
}

/// The bytes that store a sequence of cells.
pub open spec fn state_bytes(cells: Seq<bool>) -> Seq<u8> {
    Seq::new(cells.len(), |i: int| state_byte(cells[i]))
}

/// A fixed-size toroidal grid of cells, stored row by row, one byte per
/// cell: 0 is dead, 1 is alive.
#[derive(Debug, PartialEq, Eq)]
pub struct Universe {
    width: u32,
    height: u32,
    cells: Vec<u8>,
}

impl View for Universe {
    type V = Grid;

    closed spec fn view(&self) -> Grid {
        Grid {
            width: self.width as nat,
            height: self.height as nat,
            cells: Seq::new(self.cells@.len(), |i: int| self.cells@[i] == 1u8),
        }
    }
}

impl Clone for Universe {
    fn clone(&self) -> (copy: Self)
        ensures
            copy@ == self@,
            self.wf() ==> copy.wf(),
    {
        let copy = Universe { width: self.width, height: self.height, cells: self.cells.clone() };
        assert(copy.cells@ =~= self.cells@);
        copy
    }
}

impl Universe {
    /// Every stored byte is 0 or 1.
    pub closed spec fn stores_states(&self) -> bool {
        forall|i: int| 0 <= i < self.cells@.len() ==> self.cells@[i] <= 1
    }

    /// The universe is a valid grid whose cell count fits in 32 bits.
    pub open spec fn wf(&self) -> bool {
        &&& self@.wf()
        &&& self@.width * self@.height <= u32::MAX
        &&& self.stores_states()
    }

    /// A universe of the given size in which every cell is dead.
    pub fn new(width: u32, height: u32) -> (universe: Universe)
        requires
            width > 0,
            height > 0,
            width * height <= u32::MAX,
        ensures
            universe.wf(),
            universe@ == Grid::dead(width as nat, height as nat),
    {
        let size: usize = (width * height) as usize;
        let universe = Universe { width, height, cells: vec![0u8; size] };
        assert(universe@.cells =~= Grid::dead(width as nat, height as nat).cells);
        universe
    }

    /// As `new`, but dimensions that cannot be used are reported instead of
    /// being left to the caller.
    pub fn try_new(width: u32, height: u32) -> (result: Result<Universe, DimensionError>)
        ensures
            match result {
                Ok(universe) => {
                    &&& dimension_error(width, height) is None
                    &&& universe.wf()
                    &&& universe@ == Grid::dead(width as nat, height as nat)
                },
                Err(e) => dimension_error(width, height) == Some(e),
            },
    {
        match check_dimensions(width, height) {
            Ok(()) => Ok(Universe::new(width, height)),
            Err(e) => Err(e),
        }
    }

    /// A universe of the given size filled from a seed. The generator is
    /// xorshift64*, started from `seed + 0x9E3779B97F4A7C15`; it is advanced
    /// once for each cell, row by row, and the lowest bit of the number drawn
    /// decides whether the cell is alive.
    pub fn random(width: u32, height: u32, seed: u64) -> (universe: Universe)
        requires
            width > 0,
            height > 0,
            width * height <= u32::MAX,
        ensures
            universe.wf(),
            universe@ == Grid::seeded(width as nat, height as nat, seed),
    {
        let size: usize = (width * height) as usize;
        let mut generator = Xorshift64Star::new(seed);
        let mut cells: Vec<u8> = Vec::with_capacity(size);
        for i in 0..size
            invariant
                generator@ == state_after(seed, i as nat),
                cells@.len() == i,
                forall|k: int| 0 <= k < i ==> #[trigger] cells@[k] == state_byte(nth_bit(seed, k as nat)),
        {
            let r: u64 = generator.next_u64();
            assert(r & 1 <= 1) by (bit_vector);
            cells.push((r & 1) as u8);
        }
        let universe = Universe { width, height, cells };
        assert(universe@.cells =~= Grid::seeded(width as nat, height as nat, seed).cells);
        universe
    }

    /// As `random`, but dimensions that cannot be used are reported instead
    /// of being left to the caller.
    pub fn try_random(width: u32, height: u32, seed: u64) -> (result: Result<
        Universe,
        DimensionError,
    >)
        ensures
            match result {
                Ok(universe) => {
                    &&& dimension_error(width, height) is None
                    &&& universe.wf()
                    &&& universe@ == Grid::seeded(width as nat, height as nat, seed)
                },
                Err(e) => dimension_error(width, height) == Some(e),
            },
    {
        match check_dimensions(width, height) {
            Ok(()) => Ok(Universe::random(width, height, seed)),
            Err(e) => Err(e),
        }
    }

    /// The number of columns.
    pub fn width(&self) -> (width: u32)
        ensures
            width == self@.width,
    {
        self.width
    }

    /// The number of rows.
    pub fn height(&self) -> (height: u32)
        ensures
            height == self@.height,
    {
        self.height
    }

    /// The position of an on-grid cell in the row-major storage.
    fn idx(&self, row: u32, col: u32) -> (i: usize)
        requires
            self.wf(),
            row < self.height,
            col < self.width,
        ensures
            i == self@.index(row as int, col as int),
            i == row * self.width + col,
            i < self.cells@.len(),
    {
        proof {
            self@.lemma_index_on_grid(row as int, col as int);
            assert(row * self.width >= 0) by (nonlinear_arith);
        }
        (row * self.width + col) as usize
    }

    /// The state of the cell at `(row mod height, col mod width)`: 1 if it is
    /// alive, 0 if it is dead.
    pub fn get(&self, row: u32, col: u32) -> (cell: u8)
        requires
            self.wf(),
        ensures
            cell == self@.state(row as int, col as int),
    {
        proof {
            self@.lemma_index_wraps(row as int, col as int);
        }
        let i: usize = self.idx(row % self.height, col % self.width);
        self.cells[i]
    }

    /// Makes the cell at `(row mod height, col mod width)` alive or dead.
    pub fn set(&mut self, row: u32, col: u32, alive: bool)
        requires
            old(self).wf(),
        ensures
            final(self).wf(),
            final(self)@ == old(self)@.with_cell(row as int, col as int, alive),
    {
        proof {
            self@.lemma_index_wraps(row as int, col as int);
        }
        let i: usize = self.idx(row % self.height, col % self.width);
        self.cells.set(i, if alive { 1 } else { 0 });
        assert(self@.cells =~= old(self)@.with_cell(row as int, col as int, alive).cells);
    }

    /// Flips the cell at `(row mod height, col mod width)`: a dead cell
    /// becomes alive and a live one dead.
    pub fn toggle(&mut self, row: u32, col: u32)
        requires
            old(self).wf(),
        ensures
            final(self).wf(),
            final(self)@ == old(self)@.with_cell(
                row as int,
                col as int,
                !old(self)@.alive(row as int, col as int),
            ),
    {
        proof {
            self@.lemma_index_wraps(row as int, col as int);
        }
        let i: usize = self.idx(row % self.height, col % self.width);
        let cell: u8 = self.cells[i];
        assert(cell ^ 1 == 1 - cell) by (bit_vector)
            requires
                cell <= 1,
        ;
        self.cells.set(i, cell ^ 1);
        assert(self@.cells =~= old(self)@.with_cell(
            row as int,
            col as int,
            !old(self)@.alive(row as int, col as int),
        ).cells);
    }

    /// What the cell displaced by `(delta_row, delta_col)` from `(row, col)`
    /// adds to the neighbour count.
    fn neighbor(&self, row: u32, col: u32, delta_row: u32, delta_col: u32) -> (state: u8)
        requires
            self.wf(),
        ensures
            state == self@.neighbor(row as int, col as int, delta_row as int, delta_col as int),
            state <= 1,
    {
        if delta_row == 0 && delta_col == 0 {
            0
        } else {
            let nrow: u32 = ((row as u64 + delta_row as u64) % (self.height as u64)) as u32;
            let ncol: u32 = ((col as u64 + delta_col as u64) % (self.width as u64)) as u32;
            proof {
                self@.lemma_index_wraps(row + delta_row, col + delta_col);
            }
            self.get(nrow, ncol)
        }
    }

    /// The part of the neighbour count that comes from one row displacement.
    fn neighbors_in_row(&self, row: u32, col: u32, delta_row: u32) -> (count: u8)
        requires
            self.wf(),
        ensures
            count == self@.neighbors_in_row(row as int, col as int, delta_row as int),
            count <= 3,
    {
        let left: u8 = self.neighbor(row, col, delta_row, self.width - 1);
        let middle: u8 = self.neighbor(row, col, delta_row, 0);
        let right: u8 = self.neighbor(row, col, delta_row, 1);
        left + middle + right
    }

    /// The number of live cells among the neighbours of `(row, col)` on the
    /// torus. The neighbours are reached by the row displacements
    /// `height - 1`, 0 and 1 and the column displacements `width - 1`, 0 and
    /// 1, the pair `(0, 0)` left out.
    pub fn live_neighbor_count(&self, row: u32, col: u32) -> (count: u8)
        requires
            self.wf(),
        ensures
            count == self@.live_neighbors(row as int, col as int),
            count <= 8,
    {
        let above: u8 = self.neighbors_in_row(row, col, self.height - 1);
        let level: u8 = self.neighbors_in_row(row, col, 0);
        let below: u8 = self.neighbors_in_row(row, col, 1);
        above + level + below
    }

    /// `bytes` holds, in row-major order, the states of the first cells of
    /// the next generation.
    spec fn begins_next_generation(&self, bytes: Seq<u8>) -> bool {
        &&& bytes.len() <= self@.width * self@.height
        &&& forall|k: int|
            0 <= k < bytes.len() ==> #[trigger] bytes[k] == state_byte(self@.step().cells[k])
    }

    /// Advances the universe by one generation. Every cell of the new
    /// generation is computed from the old one: the new states are collected
    /// in a fresh buffer that replaces the old one at the end.
    pub fn tick(&mut self)
        requires
            old(self).wf(),
        ensures
            final(self).wf(),
            final(self)@ == old(self)@.step(),
    {
        let mut next: Vec<u8> = Vec::with_capacity(self.cells.len());
        assert(0 * self.width == 0) by (nonlinear_arith);
        for row in 0..self.height
            invariant
                self.wf(),
                *self == *old(self),
                next@.len() == row * self.width,
                self.begins_next_generation(next@),
        {
            for col in 0..self.width
                invariant
                    self.wf(),
                    *self == *old(self),
                    row < self.height,
                    next@.len() == row * self.width + col,
                    self.begins_next_generation(next@),
            {
                let idx: usize = self.idx(row, col);
                let cell: u8 = self.cells[idx];
                let live_neighbors: u8 = self.live_neighbor_count(row, col);
                let next_cell: u8 = match (cell, live_neighbors) {
                    (1, x) if x < 2 => 0,
                    (1, 2) | (1, 3) => 1,
                    (1, x) if x > 3 => 0,
                    (0, 3) => 1,
                    (current, _) => current,
                };
                proof {
                    self@.lemma_index_on_grid(row as int, col as int);
                    assert(next_cell == state_byte(self@.next_alive(row as int, col as int)));
                    assert(self@.step().cells[idx as int] == self@.next_alive(
                        row as int,
                        col as int,
                    ));
                }
                next.push(next_cell);
            }
            assert((row + 1) * self.width == row * self.width + self.width) by (nonlinear_arith);
        }
        assert(self.height * self.width == self.width * self.height) by (nonlinear_arith);
        self.cells = next;
        assert(self@.cells =~= old(self)@.step().cells);
    }

    /// The snapshot of the universe as text: the rows from top to bottom,
    /// each as the glyphs of its cells from left to right followed by a line
    /// break. A live cell is shown as a full block, a dead one as a dot.
    pub fn as_string(&self) -> (text: String)
        requires
            self.wf(),
        ensures
            text@ == self@.rendering(),
    {
        let mut s = String::new();
        let ghost line: int = self@.line_length();
        assert(0 * line == 0) by (nonlinear_arith);
        for row in 0..self.height
            invariant
                self.wf(),
                line == self@.line_length(),
                s@ == self@.rendering().take(row * line),
        {
            for col in 0..self.width
                invariant
                    self.wf(),
                    line == self@.line_length(),
                    row < self.height,
                    s@ == self@.rendering().take(row * line + col),
            {
                let ch: char = if self.get(row, col) == 1 {
                    LIVE_GLYPH
                } else {
                    DEAD_GLYPH
                };
                proof {
                    self@.lemma_rendering_at(row as int, col as int);
                    assert(self@.rendering().take(row * line + col + 1) =~= self@.rendering().take(
                        row * line + col,
                    ).push(ch));
                }
                s.push(ch);
            }
            proof {
                self@.lemma_rendering_at(row as int, self.width as int);
                assert((row + 1) * line == row * line + self.width + 1) by (nonlinear_arith)
                    requires
                        line == self.width + 1,
                ;
                assert(self@.rendering().take((row + 1) * line) =~= self@.rendering().take(
                    row * line + self.width,
                ).push(LINE_BREAK));
            }
            s.push(LINE_BREAK);
        }
        assert(self@.rendering().take(self.height * line) =~= self@.rendering());
        s
    }

    /// Flips the cell at `(row mod height, col mod width)`, as `toggle` does:
    /// the name under which a host binding offers the same operation.
    pub fn toggle_cell(&mut self, row: u32, col: u32)
        requires
            old(self).wf(),
        ensures
            final(self).wf(),
            final(self)@ == old(self)@.with_cell(
                row as int,
                col as int,
                !old(self)@.alive(row as int, col as int),
            ),
    {
        self.toggle(row, col);
    }

    /// Overwrites the cells, in row-major order, with the given states:
    /// `true` makes a cell alive. Cells for which `draws` holds no state keep
    /// theirs, and states beyond the last cell are left aside.
    pub fn randomize(&mut self, draws: &[bool])
        requires
            old(self).wf(),
        ensures
            final(self).wf(),
            final(self)@ == old(self)@.overwritten(draws@),
    {
        let n: usize = if draws.len() < self.cells.len() {
            draws.len()
        } else {
            self.cells.len()
        };
        for i in 0..n
            invariant
                self.wf(),
                self@.width == old(self)@.width,
                self@.height == old(self)@.height,
                n <= draws@.len(),
                n <= self.cells@.len(),
                forall|k: int| 0 <= k < i ==> #[trigger] self.cells@[k] == state_byte(draws@[k]),
                forall|k: int|
                    i <= k < self.cells@.len() ==> #[trigger] self.cells@[k] == old(self).cells@[k],
        {
            self.cells.set(i, if draws[i] { 1 } else { 0 });
        }
        assert(self@.cells =~= old(self)@.overwritten(draws@).cells);
    }

    /// Makes every cell dead.
    pub fn clear(&mut self)
        requires
            old(self).wf(),
        ensures
            final(self).wf(),
            final(self)@ == Grid::dead(old(self)@.width, old(self)@.height),
    {
        let n: usize = self.cells.len();
        for i in 0..n
            invariant
                self.wf(),
                self@.width == old(self)@.width,
                self@.height == old(self)@.height,
                n == self.cells@.len(),
                forall|k: int| 0 <= k < i ==> #[trigger] self.cells@[k] == 0,
        {
            self.cells.set(i, 0);
        }
        assert(self@.cells =~= Grid::dead(old(self)@.width, old(self)@.height).cells);
    }

    /// A copy of the cell states in row-major order, one byte per cell: 1 for
    /// a live cell and 0 for a dead one.
    pub fn get_cells(&self) -> (cells: Vec<u8>)
        requires
            self.wf(),
        ensures
            cells@ == state_bytes(self@.cells),
    {
        let cells = self.cells.clone();
        assert(cells@ =~= state_bytes(self@.cells));
        cells
    }

    /// Seeding is deterministic: two universes built by `random` from the
    /// same dimensions and the same seed hold the same cells, and so do the
    /// copies of their states that `get_cells` hands out.
    pub proof fn lemma_random_deterministic(
        a: Universe,
        b: Universe,
        width: u32,
        height: u32,
        seed: u64,
    )
        requires
            a@ == Grid::seeded(width as nat, height as nat, seed),
            b@ == Grid::seeded(width as nat, height as nat, seed),
        ensures
            a@ == b@,
            state_bytes(a@.cells) == state_bytes(b@.cells),
    {
    }
}

} // verus!
