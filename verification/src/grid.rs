//! The grid state: a fixed 48x128 matrix of cells, `true` alive and `false`
//! dead. Positions outside the grid read as dead, so the world never wraps:
//! the border acts as a permanently dead frame.

use vstd::prelude::*;

verus! {

/// Number of rows in the grid.
pub const HEIGHT: usize = 48;

/// Number of columns in the grid.
pub const WIDTH: usize = 128;

/// The cell at `(y, x)` of a grid, with every out-of-range position dead.
pub open spec fn cell_at(g: Seq<Seq<bool>>, y: int, x: int) -> bool {
    0 <= y < g.len() && 0 <= x < g[y].len() && g[y][x]
}

/// The grid holds exactly `HEIGHT` rows of `WIDTH` cells each.
pub open spec fn grid_wf(g: Seq<Seq<bool>>) -> bool {
    g.len() == HEIGHT && forall|y: int| 0 <= y < g.len() ==> (#[trigger] g[y]).len() == WIDTH
}

/// A fixed-size matrix of cells, allocated all dead and mutated in place.
pub struct Grid {
    cells: Vec<Vec<bool>>,
}

impl View for Grid {
    type V = Seq<Seq<bool>>;

    closed spec fn view(&self) -> Seq<Seq<bool>> {
        Seq::new(self.cells@.len(), |y: int| self.cells@[y]@)
    }
}

impl Grid {
    /// The grid's dimensions never change after construction.
    pub open spec fn wf(&self) -> bool {
        grid_wf(self@)
    }

    /// Allocates the all-dead grid.
    pub fn new() -> (g: Grid)
        ensures
            g.wf(),
            forall|y: int, x: int| !cell_at(g@, y, x),
    {
        let mut cells: Vec<Vec<bool>> = Vec::new();
        let mut y: usize = 0;
        while y < HEIGHT
            invariant
                y <= HEIGHT,
                cells@.len() == y,
                forall|i: int| 0 <= i < y ==> (#[trigger] cells@[i])@.len() == WIDTH,
                forall|i: int, j: int| 0 <= i < y && 0 <= j < WIDTH ==> !(#[trigger] cells@[i]@[j]),
            decreases HEIGHT - y,
        {
            let mut row: Vec<bool> = Vec::new();
            let mut x: usize = 0;
            while x < WIDTH
                invariant
                    x <= WIDTH,
                    row@.len() == x,
                    forall|j: int| 0 <= j < x ==> !(#[trigger] row@[j]),
                decreases WIDTH - x,
            {
                row.push(false);
                x = x + 1;
            }
            cells.push(row);
            y = y + 1;
        }
        Grid { cells }
    }

    /// Reads the cell at `(y, x)`, with every out-of-range position dead.
    pub fn get_cell(&self, y: isize, x: isize) -> (alive: bool)
        requires
            self.wf(),
        ensures
            alive == cell_at(self@, y as int, x as int),
    {
        proof {
            assert(self@.len() == self.cells@.len());
            assert(forall|i: int|
                0 <= i < self.cells@.len() ==> self@[i] == (#[trigger] self.cells@[i])@);
        }
        if y >= 0 && x >= 0 {
            let yu = y as usize;
            let xu = x as usize;
            if yu < HEIGHT && xu < WIDTH {
                return self.cells[yu][xu];
            }
        }
        false
    }

    /// Sets the cell at `(y, x)`, leaving every other cell as it was.
    pub fn set_cell(&mut self, y: usize, x: usize, alive: bool)
        requires
            old(self).wf(),
            y < HEIGHT,
            x < WIDTH,
        ensures
            final(self).wf(),
            forall|yy: int, xx: int|
                cell_at(final(self)@, yy, xx) == if yy == y && xx == x {
                    alive
                } else {
                    cell_at(old(self)@, yy, xx)
                },
    {
        proof {
            assert(self@.len() == self.cells@.len());
            assert(forall|i: int|
                0 <= i < self.cells@.len() ==> self@[i] == (#[trigger] self.cells@[i])@);
        }
        self.cells[y][x] = alive;
        proof {
            assert(self@.len() == self.cells@.len());
            assert(forall|i: int|
                0 <= i < self.cells@.len() ==> self@[i] == (#[trigger] self.cells@[i])@);
        }
    }

    /// Swaps a freshly computed matrix into place; the step engine computes
    /// the next generation into its own buffer and replaces the old one here.
    pub(crate) fn replace_cells(&mut self, cells: Vec<Vec<bool>>)
        ensures
            final(self)@.len() == cells@.len(),
            forall|i: int| 0 <= i < cells@.len() ==> final(self)@[i] == (#[trigger] cells@[i])@,
    {
        self.cells = cells;
        proof {
            assert(self@.len() == self.cells@.len());
            assert(forall|i: int|
                0 <= i < self.cells@.len() ==> self@[i] == (#[trigger] self.cells@[i])@);
        }
    }
}

} // verus!
