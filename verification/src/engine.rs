//! The step engine: counts the living neighbors of each cell against the
//! previous generation and applies the standard Life rule. The next
//! generation is computed into a fresh buffer before it replaces the old
//! one, so every neighbor count reads the same prior generation.

use vstd::prelude::*;
use crate::grid::{Grid, cell_at, HEIGHT, WIDTH};

verus! {

/// Counts a living cell as one, a dead one as zero.
pub open spec fn alive_as_int(alive: bool) -> int {
    if alive {
        1
    } else {
        0
    }
}

/// How many of the eight positions around `(y, x)` hold a living cell,
/// with out-of-range positions dead.
pub open spec fn neighbor_count(g: Seq<Seq<bool>>, y: int, x: int) -> int {
    alive_as_int(cell_at(g, y - 1, x - 1)) + alive_as_int(cell_at(g, y - 1, x)) + alive_as_int(
        cell_at(g, y - 1, x + 1),
    ) + alive_as_int(cell_at(g, y, x - 1)) + alive_as_int(cell_at(g, y, x + 1)) + alive_as_int(
        cell_at(g, y + 1, x - 1),
    ) + alive_as_int(cell_at(g, y + 1, x)) + alive_as_int(cell_at(g, y + 1, x + 1))
}

/// The standard Life rule: a cell lives in the next generation exactly when
/// it has three living neighbors, or it is alive now and has two.
pub open spec fn next_cell(g: Seq<Seq<bool>>, y: int, x: int) -> bool {
    neighbor_count(g, y, x) == 3 || (cell_at(g, y, x) && neighbor_count(g, y, x) == 2)
}

impl Grid {
    /// Counts the living neighbors of the cell at `(y, x)`, reading nothing
    /// outside the grid: out-of-range neighbors count as dead.
    pub fn count_neighbors(&self, y: usize, x: usize) -> (n: u8)
        requires
            self.wf(),
            y < HEIGHT,
            x < WIDTH,
        ensures
            n as int == neighbor_count(self@, y as int, x as int),
            n <= 8,
    {
        let yi = y as isize;
        let xi = x as isize;
        let mut n: u8 = 0;
        if self.get_cell(yi - 1, xi - 1) {
            n = n + 1;
        }
        if self.get_cell(yi - 1, xi) {
            n = n + 1;
        }
        if self.get_cell(yi - 1, xi + 1) {
            n = n + 1;
        }
        if self.get_cell(yi, xi - 1) {
            n = n + 1;
        }
        if self.get_cell(yi, xi + 1) {
            n = n + 1;
        }
        if self.get_cell(yi + 1, xi - 1) {
            n = n + 1;
        }
        if self.get_cell(yi + 1, xi) {
            n = n + 1;
        }
        if self.get_cell(yi + 1, xi + 1) {
            n = n + 1;
        }
        n
    }

    /// Advances the grid by one generation: every cell of the new grid obeys
    /// the Life rule applied to the old one.
    pub fn tick(&mut self)
        requires
            old(self).wf(),
        ensures
            final(self).wf(),
            forall|y: int, x: int|
                0 <= y < HEIGHT && 0 <= x < WIDTH ==> cell_at(final(self)@, y, x) == next_cell(
                    old(self)@,
                    y,
                    x,
                ),
    {
        let mut new_cells: Vec<Vec<bool>> = Vec::new();
        let mut y: usize = 0;
        while y < HEIGHT
            invariant
                self.wf(),
                self == old(self),
                y <= HEIGHT,
                new_cells@.len() == y,
                forall|i: int| 0 <= i < y ==> (#[trigger] new_cells@[i])@.len() == WIDTH,
                forall|i: int, j: int|
                    0 <= i < y && 0 <= j < WIDTH ==> #[trigger] new_cells@[i]@[j] == next_cell(
                        self@,
                        i,
                        j,
                    ),
            decreases HEIGHT - y,
        {
            let mut row: Vec<bool> = Vec::new();
            let mut x: usize = 0;
            while x < WIDTH
                invariant
                    self.wf(),
                    self == old(self),
                    y < HEIGHT,
                    x <= WIDTH,
                    row@.len() == x,
                    forall|j: int|
                        0 <= j < x ==> #[trigger] row@[j] == next_cell(self@, y as int, j),
                decreases WIDTH - x,
            {
                let n = self.count_neighbors(y, x);
                let alive = self.get_cell(y as isize, x as isize);
                row.push(n == 3 || (alive && n == 2));
                x = x + 1;
            }
            new_cells.push(row);
            y = y + 1;
        }
        self.replace_cells(new_cells);
        proof {
            assert forall|i: int| 0 <= i < HEIGHT implies (#[trigger] self@[i]).len() == WIDTH by {
                assert(self@[i] == new_cells@[i]@);
            }
            assert forall|yy: int, xx: int| 0 <= yy < HEIGHT && 0 <= xx < WIDTH implies cell_at(
                self@,
                yy,
                xx,
            ) == next_cell(old(self)@, yy, xx) by {
                assert(self@[yy] == new_cells@[yy]@);
                assert(new_cells@[yy]@[xx] == next_cell(old(self)@, yy, xx));
            }
        }
    }
}

} // verus!
