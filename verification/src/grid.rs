//! The mathematical model of a universe: a rectangle of cells whose opposite
//! edges are glued together, so that every coordinate wraps around.

use crate::rng::nth_bit;
use vstd::arithmetic::div_mod::{
    lemma_add_mod_noop_right, lemma_fundamental_div_mod_converse, lemma_mod_add_multiples_vanish,
    lemma_mod_bound, lemma_mod_twice, lemma_small_mod,
};
use vstd::prelude::*;

verus! {

/// The rule B3/S23 for one cell: a live cell stays alive with two or three
/// live neighbours and dies otherwise; a dead cell comes alive with exactly
/// three.
pub open spec fn next_state(alive: bool, live_neighbors: int) -> bool {
    if alive {
        live_neighbors == 2 || live_neighbors == 3
    } else {
        live_neighbors == 3
    }
}

/// A grid of `height` rows and `width` columns. The cell in row `r` and
/// column `c` is `cells[r * width + c]`; `true` means alive.
pub struct Grid {
    pub width: nat,
    pub height: nat,
    pub cells: Seq<bool>,
}

impl Grid {
    /// Both dimensions are positive and there is one state per cell.
    pub open spec fn wf(self) -> bool {
        &&& self.width > 0
        &&& self.height > 0
        &&& self.cells.len() == self.width * self.height
    }

    /// The grid in which every cell is dead.
    pub open spec fn dead(width: nat, height: nat) -> Grid {
        Grid { width, height, cells: Seq::new(width * height, |i: int| false) }
    }

    /// The grid filled from a seed: cell number `i`, counted row by row, is
    /// alive exactly if the lowest bit of the `i`-th number drawn from a
    /// generator started from `seed` is set.
    pub open spec fn seeded(width: nat, height: nat, seed: u64) -> Grid {
        Grid { width, height, cells: Seq::new(width * height, |i: int| nth_bit(seed, i as nat)) }
    }

    /// Where the cell at `(row, col)` is stored, each coordinate taken modulo
    /// its dimension. Defined for every integer, negative ones included.
    pub open spec fn index(self, row: int, col: int) -> int {
        (row % (self.height as int)) * self.width + col % (self.width as int)
    }

    /// Whether the cell at the wrapped coordinate is alive.
    pub open spec fn alive(self, row: int, col: int) -> bool {
        self.cells[self.index(row, col)]
    }

    /// The cell at the wrapped coordinate as a number: 1 alive, 0 dead.
    pub open spec fn state(self, row: int, col: int) -> int {
        if self.alive(row, col) {
            1
        } else {
            0
        }
    }

    /// This grid with the cell at the wrapped coordinate replaced.
    pub open spec fn with_cell(self, row: int, col: int, alive: bool) -> Grid {
        Grid { cells: self.cells.update(self.index(row, col), alive), ..self }
    }

    /// This grid with its first cells, in row-major order, replaced by
    /// `states`. Cells beyond the end of `states` keep their state, and
    /// states beyond the last cell are left aside.
    pub open spec fn overwritten(self, states: Seq<bool>) -> Grid {
        Grid {
            cells: Seq::new(
                self.cells.len(),
                |i: int|
                    if i < states.len() {
                        states[i]
                    } else {
                        self.cells[i]
                    },
            ),
            ..self
        }
    }

    /// What the cell displaced by `(delta_row, delta_col)` adds to the
    /// neighbour count. The displacement `(0, 0)` is the cell itself and
    /// adds nothing.
    pub open spec fn neighbor(self, row: int, col: int, delta_row: int, delta_col: int) -> int {
        if delta_row == 0 && delta_col == 0 {
            0
        } else {
            self.state(row + delta_row, col + delta_col)
        }
    }

    /// The part of the neighbour count that comes from one row displacement:
    /// the column displacements are `width - 1` (one to the left), 0 and 1.
    pub open spec fn neighbors_in_row(self, row: int, col: int, delta_row: int) -> int {
        self.neighbor(row, col, delta_row, self.width - 1) + self.neighbor(
            row,
            col,
            delta_row,
            0,
        ) + self.neighbor(row, col, delta_row, 1)
    }

    /// The number of live neighbours of `(row, col)`: the row displacements
    /// are `height - 1` (one up), 0 and 1. Where a dimension is 1, its
    /// displacement `dimension - 1` is 0 too, and every pair of displacements
    /// that are both 0 is left out.
    pub open spec fn live_neighbors(self, row: int, col: int) -> int {
        self.neighbors_in_row(row, col, self.height - 1) + self.neighbors_in_row(row, col, 0)
            + self.neighbors_in_row(row, col, 1)
    }

    /// The number of live cells among the eight cells that surround
    /// `(row, col)` on the torus.
    pub open spec fn moore_neighbors(self, row: int, col: int) -> int {
        self.state(row - 1, col - 1) + self.state(row - 1, col) + self.state(row - 1, col + 1)
            + self.state(row, col - 1) + self.state(row, col + 1) + self.state(
            row + 1,
            col - 1,
        ) + self.state(row + 1, col) + self.state(row + 1, col + 1)
    }

    /// Whether the cell at `(row, col)` is alive in the next generation.
    pub open spec fn next_alive(self, row: int, col: int) -> bool {
        next_state(self.alive(row, col), self.live_neighbors(row, col))
    }

    /// The next generation: every cell is computed from this grid alone.
    pub open spec fn step(self) -> Grid {
        Grid {
            width: self.width,
            height: self.height,
            cells: Seq::new(
                self.width * self.height,
                |i: int| self.next_alive(i / (self.width as int), i % (self.width as int)),
            ),
        }
    }

    /// Every wrapped coordinate names a stored cell.
    pub proof fn lemma_index_in_bounds(self, row: int, col: int)
        requires
            self.width > 0,
            self.height > 0,
        ensures
            0 <= self.index(row, col) < self.width * self.height,
    {
        let w: int = self.width as int;
        let h: int = self.height as int;
        let r: int = row % h;
        let c: int = col % w;
        lemma_mod_bound(row, h);
        lemma_mod_bound(col, w);
        assert(0 <= r * w) by (nonlinear_arith)
            requires
                0 <= r,
                0 < w,
        ;
        assert(r * w + c < w * h) by (nonlinear_arith)
            requires
                0 <= r < h,
                0 <= c < w,
        ;
    }

    /// On the grid itself the index is `row * width + col`, and row and
    /// column are found again from it by division.
    pub proof fn lemma_index_on_grid(self, row: int, col: int)
        requires
            0 <= row < self.height,
            0 <= col < self.width,
        ensures
            self.index(row, col) == row * self.width + col,
            0 <= row * self.width + col < self.width * self.height,
            (row * self.width + col) / (self.width as int) == row,
            (row * self.width + col) % (self.width as int) == col,
    {
        let w: int = self.width as int;
        let h: int = self.height as int;
        lemma_small_mod(row as nat, self.height);
        lemma_small_mod(col as nat, self.width);
        assert(w * row == row * w) by (nonlinear_arith);
        lemma_fundamental_div_mod_converse(row * w + col, w, row, col);
        self.lemma_index_in_bounds(row, col);
    }

    /// A coordinate and its remainders name the same cell.
    pub proof fn lemma_index_wraps(self, row: int, col: int)
        requires
            self.width > 0,
            self.height > 0,
        ensures
            self.index(row, col) == self.index(
                row % (self.height as int),
                col % (self.width as int),
            ),
    {
        lemma_mod_twice(row, self.height as int);
        lemma_mod_twice(col, self.width as int);
    }

    /// Moving a whole turn around the torus in both directions comes back to
    /// the same cell.
    pub proof fn lemma_index_periodic(self, row: int, col: int)
        requires
            self.width > 0,
            self.height > 0,
        ensures
            self.index(row + self.height, col + self.width) == self.index(row, col),
            self.index(row + self.height, col) == self.index(row, col),
            self.index(row, col + self.width) == self.index(row, col),
    {
        let w: int = self.width as int;
        let h: int = self.height as int;
        lemma_mod_add_multiples_vanish(row, h);
        lemma_mod_add_multiples_vanish(col, w);
        assert(h + row == row + h);
        assert(w + col == col + w);
    }

    /// Wraparound: the cell one whole turn down and one whole turn to the
    /// right is the cell itself, for every pair of integers.
    pub proof fn lemma_alive_periodic(self, row: int, col: int)
        requires
            self.wf(),
        ensures
            self.alive(row + self.height, col + self.width) == self.alive(row, col),
            self.alive(row + self.height, col) == self.alive(row, col),
            self.alive(row, col + self.width) == self.alive(row, col),
            self.alive(row % (self.height as int), col % (self.width as int)) == self.alive(
                row,
                col,
            ),
    {
        self.lemma_index_periodic(row, col);
        self.lemma_index_wraps(row, col);
    }

    /// A displacement leads to the same cell from a coordinate and from its
    /// remainders.
    pub proof fn lemma_neighbor_wraps(self, row: int, col: int, delta_row: int, delta_col: int)
        requires
            self.width > 0,
            self.height > 0,
        ensures
            self.neighbor(
                row % (self.height as int),
                col % (self.width as int),
                delta_row,
                delta_col,
            ) == self.neighbor(row, col, delta_row, delta_col),
    {
        let w: int = self.width as int;
        let h: int = self.height as int;
        lemma_add_mod_noop_right(delta_row, row, h);
        lemma_add_mod_noop_right(delta_col, col, w);
        assert(row % h + delta_row == delta_row + row % h);
        assert(col % w + delta_col == delta_col + col % w);
        assert(row + delta_row == delta_row + row);
        assert(col + delta_col == delta_col + col);
    }

    /// A cell has as many live neighbours wherever on the torus its
    /// coordinate is written.
    pub proof fn lemma_live_neighbors_wraps(self, row: int, col: int)
        requires
            self.width > 0,
            self.height > 0,
        ensures
            self.live_neighbors(row % (self.height as int), col % (self.width as int))
                == self.live_neighbors(row, col),
    {
        let up: int = self.height - 1;
        let left: int = self.width - 1;
        self.lemma_neighbor_wraps(row, col, up, left);
        self.lemma_neighbor_wraps(row, col, up, 0);
        self.lemma_neighbor_wraps(row, col, up, 1);
        self.lemma_neighbor_wraps(row, col, 0, left);
        self.lemma_neighbor_wraps(row, col, 0, 0);
        self.lemma_neighbor_wraps(row, col, 0, 1);
        self.lemma_neighbor_wraps(row, col, 1, left);
        self.lemma_neighbor_wraps(row, col, 1, 0);
        self.lemma_neighbor_wraps(row, col, 1, 1);
    }

    /// No cell has more than eight live neighbours.
    pub proof fn lemma_live_neighbors_bound(self, row: int, col: int)
        ensures
            0 <= self.live_neighbors(row, col) <= 8,
    {
        let up: int = self.height - 1;
        let left: int = self.width - 1;
        assert(0 <= self.neighbors_in_row(row, col, up) <= 3);
        assert(0 <= self.neighbors_in_row(row, col, 0) <= 2);
        assert(0 <= self.neighbors_in_row(row, col, 1) <= 3);
    }

    /// On a grid with at least two rows and two columns the neighbours are
    /// the eight cells that surround the cell.
    pub proof fn lemma_live_neighbors_moore(self, row: int, col: int)
        requires
            self.wf(),
            self.width >= 2,
            self.height >= 2,
        ensures
            self.live_neighbors(row, col) == self.moore_neighbors(row, col),
    {
        self.lemma_index_periodic(row - 1, col - 1);
        self.lemma_index_periodic(row - 1, col);
        self.lemma_index_periodic(row - 1, col + 1);
        self.lemma_index_periodic(row, col - 1);
        self.lemma_index_periodic(row + 1, col - 1);
    }

    /// One generation keeps the dimensions, and decides every cell by the
    /// rule from its own state and the number of its live neighbours in this
    /// grid.
    pub proof fn lemma_step(self, row: int, col: int)
        requires
            self.wf(),
        ensures
            self.step().wf(),
            self.step().width == self.width,
            self.step().height == self.height,
            self.step().alive(row, col) == next_state(
                self.alive(row, col),
                self.live_neighbors(row, col),
            ),
    {
        let w: int = self.width as int;
        let h: int = self.height as int;
        lemma_mod_bound(row, h);
        lemma_mod_bound(col, w);
        self.lemma_index_on_grid(row % h, col % w);
        self.lemma_index_wraps(row, col);
        self.lemma_live_neighbors_wraps(row, col);
    }

    /// Underpopulation: a live cell with fewer than two live neighbours dies.
    pub proof fn lemma_underpopulation(self, row: int, col: int)
        requires
            self.wf(),
            self.alive(row, col),
            self.live_neighbors(row, col) < 2,
        ensures
            !self.step().alive(row, col),
    {
        self.lemma_step(row, col);
    }

    /// Survival: a live cell with two or three live neighbours lives on.
    pub proof fn lemma_survival(self, row: int, col: int)
        requires
            self.wf(),
            self.alive(row, col),
            self.live_neighbors(row, col) == 2 || self.live_neighbors(row, col) == 3,
        ensures
            self.step().alive(row, col),
    {
        self.lemma_step(row, col);
    }

    /// Overpopulation: a live cell with more than three live neighbours dies.
    pub proof fn lemma_overpopulation(self, row: int, col: int)
        requires
            self.wf(),
            self.alive(row, col),
            self.live_neighbors(row, col) > 3,
        ensures
            !self.step().alive(row, col),
    {
        self.lemma_step(row, col);
    }

    /// Reproduction: a dead cell with exactly three live neighbours comes
    /// alive, and with any other number it stays dead.
    pub proof fn lemma_reproduction(self, row: int, col: int)
        requires
            self.wf(),
            !self.alive(row, col),
        ensures
            self.step().alive(row, col) == (self.live_neighbors(row, col) == 3),
    {
        self.lemma_step(row, col);
    }
}

} // verus!
