//! The renderer: serializes the grid to text, one line per row, each line
//! opening with the row index padded to two characters, followed by one
//! glyph per cell — a filled block for a living cell, a space for a dead
//! one. Writing the text to the terminal stays outside the library.

use vstd::prelude::*;
use crate::grid::{Grid, cell_at, HEIGHT, WIDTH};

verus! {

/// The decimal digit `d` as a character.
pub open spec fn digit_char(d: int) -> char {
    if d == 0 {
        '0'
    } else if d == 1 {
        '1'
    } else if d == 2 {
        '2'
    } else if d == 3 {
        '3'
    } else if d == 4 {
        '4'
    } else if d == 5 {
        '5'
    } else if d == 6 {
        '6'
    } else if d == 7 {
        '7'
    } else if d == 8 {
        '8'
    } else {
        '9'
    }
}

/// The row index padded to two characters, as the renderer prints it:
/// a space and one digit below ten, two digits from ten on.
pub open spec fn row_label(y: int) -> Seq<char> {
    if y < 10 {
        seq![' ', digit_char(y)]
    } else {
        seq![digit_char(y / 10), digit_char(y % 10)]
    }
}

/// The glyph of one cell: a filled block when alive, a space when dead.
pub open spec fn cell_char(alive: bool) -> char {
    if alive {
        '\u{2588}'
    } else {
        ' '
    }
}

/// One rendered row: the padded row label, one glyph per column, and a
/// trailing newline.
pub open spec fn row_chars(g: Seq<Seq<bool>>, y: int) -> Seq<char> {
    row_label(y) + Seq::new(WIDTH as nat, |x: int| cell_char(cell_at(g, y, x))) + seq!['\n']
}

/// The rendered rows from row `y` to the bottom of the grid.
pub open spec fn rows_from(g: Seq<Seq<bool>>, y: int) -> Seq<char>
    decreases HEIGHT - y,
{
    if y < 0 || y >= HEIGHT {
        Seq::empty()
    } else {
        row_chars(g, y) + rows_from(g, y + 1)
    }
}

/// The whole rendered frame: every row of the grid in order.
pub open spec fn frame_chars(g: Seq<Seq<bool>>) -> Seq<char> {
    rows_from(g, 0)
}

/// The decimal digit `d` as a character.
fn digit_to_char(d: usize) -> (c: char)
    requires
        d < 10,
    ensures
        c == digit_char(d as int),
{
    if d == 0 {
        '0'
    } else if d == 1 {
        '1'
    } else if d == 2 {
        '2'
    } else if d == 3 {
        '3'
    } else if d == 4 {
        '4'
    } else if d == 5 {
        '5'
    } else if d == 6 {
        '6'
    } else if d == 7 {
        '7'
    } else if d == 8 {
        '8'
    } else {
        '9'
    }
}

/// Serializes the grid into the characters of one full frame.
pub fn render(grid: &Grid) -> (out: Vec<char>)
    requires
        grid.wf(),
    ensures
        out@ == frame_chars(grid@),
{
    let mut out: Vec<char> = Vec::new();
    let mut y: usize = 0;
    while y < HEIGHT
        invariant
            grid.wf(),
            y <= HEIGHT,
            out@ + rows_from(grid@, y as int) == frame_chars(grid@),
        decreases HEIGHT - y,
    {
        let ghost row_start = out@;
        if y < 10 {
            out.push(' ');
            out.push(digit_to_char(y));
        } else {
            out.push(digit_to_char(y / 10));
            out.push(digit_to_char(y % 10));
        }
        proof {
            assert(out@ =~= row_start + row_label(y as int));
        }
        let mut x: usize = 0;
        while x < WIDTH
            invariant
                grid.wf(),
                y < HEIGHT,
                x <= WIDTH,
                out@ =~= row_start + row_label(y as int) + Seq::new(
                    x as nat,
                    |j: int| cell_char(cell_at(grid@, y as int, j)),
                ),
            decreases WIDTH - x,
        {
            let alive = grid.get_cell(y as isize, x as isize);
            out.push(if alive {
                '\u{2588}'
            } else {
                ' '
            });
            proof {
                assert(out@ =~= row_start + row_label(y as int) + Seq::new(
                    (x + 1) as nat,
                    |j: int| cell_char(cell_at(grid@, y as int, j)),
                ));
            }
            x = x + 1;
        }
        out.push('\n');
        proof {
            assert(out@ =~= row_start + row_chars(grid@, y as int));
            assert(out@ + rows_from(grid@, y as int + 1) =~= row_start + rows_from(
                grid@,
                y as int,
            ));
        }
        y = y + 1;
    }
    proof {
        assert(rows_from(grid@, HEIGHT as int) =~= Seq::<char>::empty());
        assert(out@ =~= out@ + rows_from(grid@, HEIGHT as int));
    }
    out
}

} // verus!
