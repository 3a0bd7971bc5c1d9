//! Laws of the step rule: no spontaneous generation, death by isolation,
//! the 2x2 block still life, the three-cell blinker's period-two
//! oscillation, and the dead border at the grid's edges.

use vstd::prelude::*;
use crate::grid::{cell_at, grid_wf, HEIGHT, WIDTH};
use crate::engine::{alive_as_int, neighbor_count, next_cell};

verus! {

/// No spontaneous generation: a grid without a single living cell steps to
/// a grid without a single living cell.
pub proof fn lemma_dead_grid_stays_dead(g: Seq<Seq<bool>>, y: int, x: int)
    requires
        forall|yy: int, xx: int| !cell_at(g, yy, xx),
    ensures
        !next_cell(g, y, x),
{
}

/// Death by isolation: a living cell whose eight neighbors are all dead is
/// dead in the next generation.
pub proof fn lemma_isolated_cell_dies(g: Seq<Seq<bool>>, y: int, x: int)
    requires
        cell_at(g, y, x),
        forall|yy: int, xx: int| (yy != y || xx != x) ==> !cell_at(g, yy, xx),
    ensures
        !next_cell(g, y, x),
{
}

/// Spells out which cells a 2x2 block with top-left corner `(y0, x0)`
/// occupies.
pub open spec fn block_cell(y0: int, x0: int, y: int, x: int) -> bool {
    y0 <= y <= y0 + 1 && x0 <= x <= x0 + 1
}

/// The 2x2 block is a still life: a grid whose living cells are exactly a
/// block steps to an identical grid.
pub proof fn lemma_block_is_still_life(g: Seq<Seq<bool>>, y0: int, x0: int)
    requires
        grid_wf(g),
        0 <= y0,
        y0 + 1 < HEIGHT,
        0 <= x0,
        x0 + 1 < WIDTH,
        forall|yy: int, xx: int| #[trigger] cell_at(g, yy, xx) == block_cell(y0, x0, yy, xx),
    ensures
        forall|yy: int, xx: int| #[trigger] next_cell(g, yy, xx) == cell_at(g, yy, xx),
{
    assert forall|yy: int, xx: int| #[trigger] next_cell(g, yy, xx) == cell_at(g, yy, xx) by {
        assert(neighbor_count(g, yy, xx) == alive_neighbors_of_block(y0, x0, yy, xx));
    }
}

/// How many cells of a 2x2 block at `(y0, x0)` border the position `(y, x)`.
pub open spec fn alive_neighbors_of_block(y0: int, x0: int, y: int, x: int) -> int {
    alive_as_int(block_cell(y0, x0, y - 1, x - 1)) + alive_as_int(
        block_cell(y0, x0, y - 1, x),
    ) + alive_as_int(block_cell(y0, x0, y - 1, x + 1))
        + alive_as_int(block_cell(y0, x0, y, x - 1)) + alive_as_int(
        block_cell(y0, x0, y, x + 1),
    ) + alive_as_int(block_cell(y0, x0, y + 1, x - 1))
        + alive_as_int(block_cell(y0, x0, y + 1, x)) + alive_as_int(
        block_cell(y0, x0, y + 1, x + 1),
    )
}

/// Spells out which cells the horizontal three-cell blinker with left end
/// `(y0, x0)` occupies.
pub open spec fn blinker_row_cell(y0: int, x0: int, y: int, x: int) -> bool {
    y == y0 && x0 <= x <= x0 + 2
}

/// Spells out which cells the vertical three-cell blinker centered at
/// `(y0, x0 + 1)` occupies.
pub open spec fn blinker_column_cell(y0: int, x0: int, y: int, x: int) -> bool {
    x == x0 + 1 && y0 - 1 <= y <= y0 + 1
}

/// The blinker oscillates with period two: a grid whose living cells are
/// exactly a horizontal three-cell row (placed so that its vertical phase
/// also fits the grid) steps to the vertical three-cell column — a different
/// grid — and a second step restores the original row.
pub proof fn lemma_blinker_period_two(g: Seq<Seq<bool>>, g1: Seq<Seq<bool>>, y0: int, x0: int)
    requires
        grid_wf(g),
        grid_wf(g1),
        1 <= y0,
        y0 + 1 < HEIGHT,
        0 <= x0,
        x0 + 2 < WIDTH,
        forall|yy: int, xx: int| #[trigger] cell_at(g, yy, xx) == blinker_row_cell(y0, x0, yy, xx),
        forall|yy: int, xx: int| #[trigger] cell_at(g1, yy, xx) == next_cell(g, yy, xx),
    ensures
        forall|yy: int, xx: int|
            #[trigger] cell_at(g1, yy, xx) == blinker_column_cell(y0, x0, yy, xx),
        forall|yy: int, xx: int| #[trigger] next_cell(g1, yy, xx) == cell_at(g, yy, xx),
        exists|yy: int, xx: int| #[trigger] cell_at(g1, yy, xx) != cell_at(g, yy, xx),
{
    assert forall|yy: int, xx: int| #[trigger] cell_at(g1, yy, xx) == blinker_column_cell(
        y0,
        x0,
        yy,
        xx,
    ) by {
        assert(cell_at(g1, yy, xx) == next_cell(g, yy, xx));
    }
    assert forall|yy: int, xx: int| #[trigger] next_cell(g1, yy, xx) == cell_at(g, yy, xx) by {
        assert(cell_at(g1, yy - 1, xx - 1) == blinker_column_cell(y0, x0, yy - 1, xx - 1));
        assert(cell_at(g1, yy - 1, xx) == blinker_column_cell(y0, x0, yy - 1, xx));
        assert(cell_at(g1, yy - 1, xx + 1) == blinker_column_cell(y0, x0, yy - 1, xx + 1));
        assert(cell_at(g1, yy, xx - 1) == blinker_column_cell(y0, x0, yy, xx - 1));
        assert(cell_at(g1, yy, xx + 1) == blinker_column_cell(y0, x0, yy, xx + 1));
        assert(cell_at(g1, yy + 1, xx - 1) == blinker_column_cell(y0, x0, yy + 1, xx - 1));
        assert(cell_at(g1, yy + 1, xx) == blinker_column_cell(y0, x0, yy + 1, xx));
        assert(cell_at(g1, yy + 1, xx + 1) == blinker_column_cell(y0, x0, yy + 1, xx + 1));
    }
    assert(cell_at(g1, y0 - 1, x0 + 1) != cell_at(g, y0 - 1, x0 + 1));
}

/// The dead border: every position outside the grid's bounds reads as dead.
pub proof fn lemma_border_is_dead(g: Seq<Seq<bool>>, y: int, x: int)
    requires
        grid_wf(g),
        y < 0 || y >= HEIGHT || x < 0 || x >= WIDTH,
    ensures
        !cell_at(g, y, x),
{
}

/// At the corner cell `(0, 0)` only the three in-range neighbors can count:
/// the five positions outside the grid contribute nothing.
pub proof fn lemma_corner_counts_in_range_only(g: Seq<Seq<bool>>)
    requires
        grid_wf(g),
    ensures
        neighbor_count(g, 0, 0) == alive_as_int(cell_at(g, 0, 1))
            + alive_as_int(cell_at(g, 1, 0)) + alive_as_int(
            cell_at(g, 1, 1),
        ),
        neighbor_count(g, 0, 0) <= 3,
{
}

} // verus!
