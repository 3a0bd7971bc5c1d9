//! The pattern loader: file text, already split into characters, is read as
//! rows separated by a newline or by a carriage-return-newline pair; a lone
//! carriage return is an ordinary (dead) character. The character `x` marks
//! a living cell and any other character a dead one; rows past the last line
//! and columns past the end of a line keep their previous value; rows and
//! columns beyond the grid's bounds are silently ignored.

use vstd::prelude::*;
use crate::grid::{Grid, cell_at, HEIGHT, WIDTH};

verus! {

/// True when the text opens with a carriage-return-newline pair, which
/// counts as a single row separator.
pub open spec fn starts_with_crlf(s: Seq<char>) -> bool {
    s.len() >= 2 && s[0] == '\r' && s[1] == '\n'
}

/// The character of the text standing at row `y`, column `x`, where rows are
/// separated by a newline or a carriage-return-newline pair; `None` where
/// the text has no such position.
pub open spec fn char_at(s: Seq<char>, y: int, x: int) -> Option<char>
    decreases s.len(),
{
    if s.len() == 0 || y < 0 || x < 0 {
        None
    } else if s[0] == '\n' {
        if y == 0 {
            None
        } else {
            char_at(s.drop_first(), y - 1, x)
        }
    } else if starts_with_crlf(s) {
        if y == 0 {
            None
        } else {
            char_at(s.subrange(2, s.len() as int), y - 1, x)
        }
    } else if y == 0 {
        if x == 0 {
            Some(s[0])
        } else {
            char_at(s.drop_first(), 0, x - 1)
        }
    } else {
        char_at(s.drop_first(), y, x)
    }
}

/// The row on which text appended after `s` would land: the number of row
/// separators in `s`.
pub open spec fn end_line(s: Seq<char>) -> int
    decreases s.len(),
{
    if s.len() == 0 {
        0
    } else if s[0] == '\n' {
        1 + end_line(s.drop_first())
    } else if starts_with_crlf(s) {
        1 + end_line(s.subrange(2, s.len() as int))
    } else {
        end_line(s.drop_first())
    }
}

/// The column on which text appended after `s` would land: the number of
/// characters since the last row separator of `s`.
pub open spec fn end_col(s: Seq<char>) -> int
    decreases s.len(),
{
    if s.len() == 0 {
        0
    } else if s[0] == '\n' {
        end_col(s.drop_first())
    } else if starts_with_crlf(s) {
        end_col(s.subrange(2, s.len() as int))
    } else if end_line(s.drop_first()) > 0 {
        end_col(s.drop_first())
    } else {
        1 + end_col(s.drop_first())
    }
}

/// Rows and columns never come out negative.
pub proof fn lemma_end_nonneg(s: Seq<char>)
    ensures
        end_line(s) >= 0,
        end_col(s) >= 0,
    decreases s.len(),
{
    if s.len() == 0 {
    } else if s[0] == '\n' {
        lemma_end_nonneg(s.drop_first());
    } else if starts_with_crlf(s) {
        lemma_end_nonneg(s.subrange(2, s.len() as int));
    } else {
        lemma_end_nonneg(s.drop_first());
    }
}

/// Appending one character moves the end position one column to the right,
/// or — for a newline — to the start of the next row. A newline appended
/// right after a carriage return would instead complete a separator pair and
/// reinterpret that carriage return, so this lemma leaves that case out; the
/// pair lemmas below cover it.
pub proof fn lemma_end_push(s: Seq<char>, c: char)
    requires
        !(c == '\n' && s.len() > 0 && s.last() == '\r'),
    ensures
        end_line(s.push(c)) == if c == '\n' {
            end_line(s) + 1
        } else {
            end_line(s)
        },
        end_col(s.push(c)) == if c == '\n' {
            0
        } else {
            end_col(s) + 1
        },
    decreases s.len(),
{
    let t = s.push(c);
    assert(t.len() == s.len() + 1);
    assert(t[s.len() as int] == c);
    if s.len() == 0 {
        assert(t.drop_first() =~= s);
        assert(t[0] == c);
        assert(!starts_with_crlf(t));
        assert(end_line(s) == 0);
        assert(end_col(s) == 0);
        assert(end_col(t) == if c == '\n' {
            end_col(s)
        } else if end_line(s) > 0 {
            end_col(s)
        } else {
            1 + end_col(s)
        });
    } else {
        assert(t[0] == s[0]);
        if s.len() >= 2 {
            assert(t[1] == s[1]);
            assert(s.drop_first().last() == s.last());
        }
        assert(t.drop_first() =~= s.drop_first().push(c));
        if s[0] == '\n' {
            lemma_end_nonneg(s.drop_first());
            lemma_end_push(s.drop_first(), c);
            assert(end_line(t) == 1 + end_line(s.drop_first().push(c)));
            assert(end_col(t) == end_col(s.drop_first().push(c)));
            assert(end_line(s) == 1 + end_line(s.drop_first()));
            assert(end_col(s) == end_col(s.drop_first()));
        } else if starts_with_crlf(s) {
            assert(starts_with_crlf(t));
            assert(t.subrange(2, t.len() as int) =~= s.subrange(2, s.len() as int).push(c));
            if s.len() > 2 {
                assert(s.subrange(2, s.len() as int).last() == s.last());
            }
            lemma_end_nonneg(s.subrange(2, s.len() as int));
            lemma_end_push(s.subrange(2, s.len() as int), c);
            assert(end_line(t) == 1 + end_line(s.subrange(2, s.len() as int).push(c)));
            assert(end_col(t) == end_col(s.subrange(2, s.len() as int).push(c)));
            assert(end_line(s) == 1 + end_line(s.subrange(2, s.len() as int)));
            assert(end_col(s) == end_col(s.subrange(2, s.len() as int)));
        } else {
            assert(!starts_with_crlf(t));
            lemma_end_nonneg(s.drop_first());
            lemma_end_push(s.drop_first(), c);
            assert(end_line(t) == end_line(s.drop_first().push(c)));
            assert(end_line(s) == end_line(s.drop_first()));
            assert(end_col(s) == if end_line(s.drop_first()) > 0 {
                end_col(s.drop_first())
            } else {
                1 + end_col(s.drop_first())
            });
            assert(end_col(t) == if end_line(s.drop_first().push(c)) > 0 {
                end_col(s.drop_first().push(c))
            } else {
                1 + end_col(s.drop_first().push(c))
            });
        }
    }
}

/// Appending a whole carriage-return-newline pair moves the end position to
/// the start of the next row.
pub proof fn lemma_end_push_crlf(s: Seq<char>)
    ensures
        end_line(s + seq!['\r', '\n']) == end_line(s) + 1,
        end_col(s + seq!['\r', '\n']) == 0,
    decreases s.len(),
{
    let t = s + seq!['\r', '\n'];
    assert(t.len() == s.len() + 2);
    assert(t[s.len() as int] == '\r');
    assert(t[s.len() as int + 1] == '\n');
    if s.len() == 0 {
        assert(starts_with_crlf(t));
        assert(t.subrange(2, t.len() as int) =~= s);
        assert(end_line(t) == 1 + end_line(s));
        assert(end_col(t) == end_col(s));
        assert(end_line(s) == 0);
        assert(end_col(s) == 0);
    } else {
        assert(t[0] == s[0]);
        if s.len() >= 2 {
            assert(t[1] == s[1]);
        }
        assert(t.drop_first() =~= s.drop_first() + seq!['\r', '\n']);
        if s[0] == '\n' {
            lemma_end_push_crlf(s.drop_first());
            assert(end_line(t) == 1 + end_line(s.drop_first() + seq!['\r', '\n']));
            assert(end_col(t) == end_col(s.drop_first() + seq!['\r', '\n']));
            assert(end_line(s) == 1 + end_line(s.drop_first()));
            assert(end_col(s) == end_col(s.drop_first()));
        } else if starts_with_crlf(s) {
            assert(starts_with_crlf(t));
            assert(t.subrange(2, t.len() as int) =~= s.subrange(2, s.len() as int) + seq![
                '\r',
                '\n',
            ]);
            lemma_end_push_crlf(s.subrange(2, s.len() as int));
            assert(end_line(t) == 1 + end_line(s.subrange(2, s.len() as int) + seq!['\r', '\n']));
            assert(end_col(t) == end_col(s.subrange(2, s.len() as int) + seq!['\r', '\n']));
            assert(end_line(s) == 1 + end_line(s.subrange(2, s.len() as int)));
            assert(end_col(s) == end_col(s.subrange(2, s.len() as int)));
        } else {
            assert(!starts_with_crlf(t));
            lemma_end_nonneg(s.drop_first());
            lemma_end_push_crlf(s.drop_first());
            assert(end_line(t) == end_line(s.drop_first() + seq!['\r', '\n']));
            assert(end_line(s) == end_line(s.drop_first()));
            assert(end_col(s) == if end_line(s.drop_first()) > 0 {
                end_col(s.drop_first())
            } else {
                1 + end_col(s.drop_first())
            });
            assert(end_col(t) == if end_line(s.drop_first() + seq!['\r', '\n']) > 0 {
                end_col(s.drop_first() + seq!['\r', '\n'])
            } else {
                1 + end_col(s.drop_first() + seq!['\r', '\n'])
            });
        }
    }
}

/// Appending one character adds exactly the end position to the text's
/// addressable cells and changes no other position — again short of a
/// newline that would complete a carriage-return-newline pair.
pub proof fn lemma_char_at_push(s: Seq<char>, c: char, y: int, x: int)
    requires
        !(c == '\n' && s.len() > 0 && s.last() == '\r'),
    ensures
        char_at(s.push(c), y, x) == if c != '\n' && y == end_line(s) && x == end_col(s) {
            Some(c)
        } else {
            char_at(s, y, x)
        },
    decreases s.len(),
{
    let t = s.push(c);
    lemma_end_nonneg(s);
    lemma_end_push(s, c);
    assert(t.len() == s.len() + 1);
    assert(t[s.len() as int] == c);
    if s.len() == 0 {
        assert(t.drop_first() =~= s);
        assert(t[0] == c);
        assert(!starts_with_crlf(t));
        assert(char_at(s, y, x) is None);
    } else {
        assert(t[0] == s[0]);
        if s.len() >= 2 {
            assert(t[1] == s[1]);
            assert(s.drop_first().last() == s.last());
        }
        assert(t.drop_first() =~= s.drop_first().push(c));
        lemma_end_nonneg(s.drop_first());
        if s[0] == '\n' {
            lemma_char_at_push(s.drop_first(), c, y - 1, x);
            assert(end_line(s) == 1 + end_line(s.drop_first()));
            assert(end_col(s) == end_col(s.drop_first()));
        } else if starts_with_crlf(s) {
            assert(starts_with_crlf(t));
            assert(t.subrange(2, t.len() as int) =~= s.subrange(2, s.len() as int).push(c));
            if s.len() > 2 {
                assert(s.subrange(2, s.len() as int).last() == s.last());
            }
            lemma_end_nonneg(s.subrange(2, s.len() as int));
            lemma_char_at_push(s.subrange(2, s.len() as int), c, y - 1, x);
            assert(end_line(s) == 1 + end_line(s.subrange(2, s.len() as int)));
            assert(end_col(s) == end_col(s.subrange(2, s.len() as int)));
        } else {
            assert(!starts_with_crlf(t));
            assert(end_line(s) == end_line(s.drop_first()));
            assert(end_col(s) == if end_line(s.drop_first()) > 0 {
                end_col(s.drop_first())
            } else {
                1 + end_col(s.drop_first())
            });
            if y == 0 {
                lemma_char_at_push(s.drop_first(), c, 0, x - 1);
            } else {
                lemma_char_at_push(s.drop_first(), c, y, x);
            }
        }
    }
}

/// Appending a whole carriage-return-newline pair — one row separator —
/// adds no addressable cell at all.
pub proof fn lemma_char_at_push_crlf(s: Seq<char>, y: int, x: int)
    ensures
        char_at(s + seq!['\r', '\n'], y, x) == char_at(s, y, x),
    decreases s.len(),
{
    let t = s + seq!['\r', '\n'];
    assert(t.len() == s.len() + 2);
    assert(t[s.len() as int] == '\r');
    assert(t[s.len() as int + 1] == '\n');
    if s.len() == 0 {
        assert(starts_with_crlf(t));
        assert(t.subrange(2, t.len() as int) =~= s);
        assert(char_at(s, y, x) is None);
    } else {
        assert(t[0] == s[0]);
        if s.len() >= 2 {
            assert(t[1] == s[1]);
        }
        assert(t.drop_first() =~= s.drop_first() + seq!['\r', '\n']);
        if s[0] == '\n' {
            lemma_char_at_push_crlf(s.drop_first(), y - 1, x);
        } else if starts_with_crlf(s) {
            assert(starts_with_crlf(t));
            assert(t.subrange(2, t.len() as int) =~= s.subrange(2, s.len() as int) + seq![
                '\r',
                '\n',
            ]);
            lemma_char_at_push_crlf(s.subrange(2, s.len() as int), y - 1, x);
        } else {
            assert(!starts_with_crlf(t));
            if y == 0 {
                lemma_char_at_push_crlf(s.drop_first(), 0, x - 1);
            } else {
                lemma_char_at_push_crlf(s.drop_first(), y, x);
            }
        }
    }
}

/// What a cell holds once a pattern has been read over it: alive exactly
/// when the text holds an `x` at its position, and its previous value where
/// the text holds nothing.
pub open spec fn pattern_cell(s: Seq<char>, y: int, x: int, prev: bool) -> bool {
    match char_at(s, y, x) {
        Some(c) => c == 'x',
        None => prev,
    }
}

/// Reads an initial pattern over the grid. Rows of the text beyond the
/// grid's height and columns beyond its width are ignored, so oversized
/// input never writes out of bounds.
pub fn load_pattern(grid: &mut Grid, text: &Vec<char>)
    requires
        old(grid).wf(),
    ensures
        final(grid).wf(),
        forall|y: int, x: int|
            0 <= y < HEIGHT && 0 <= x < WIDTH ==> cell_at(final(grid)@, y, x) == pattern_cell(
                text@,
                y,
                x,
                cell_at(old(grid)@, y, x),
            ),
{
    let mut i: usize = 0;
    let mut y: usize = 0;
    let mut x: usize = 0;
    while i < text.len()
        invariant
            grid.wf(),
            i <= text@.len(),
            y <= i,
            x <= i,
            i == 0 || !(text@[i - 1] == '\r' && i < text@.len() && text@[i as int] == '\n'),
            y as int == end_line(text@.take(i as int)),
            x as int == end_col(text@.take(i as int)),
            forall|yy: int, xx: int|
                0 <= yy < HEIGHT && 0 <= xx < WIDTH ==> cell_at(grid@, yy, xx) == pattern_cell(
                    text@.take(i as int),
                    yy,
                    xx,
                    cell_at(old(grid)@, yy, xx),
                ),
        decreases text@.len() - i,
    {
        let c = text[i];
        if c == '\r' && i + 1 < text.len() && text[i + 1] == '\n' {
            proof {
                let pre = text@.take(i as int);
                assert(pre + seq!['\r', '\n'] =~= text@.take(i + 2));
                lemma_end_push_crlf(pre);
                assert forall|yy: int, xx: int|
                    char_at(text@.take(i + 2), yy, xx) == char_at(pre, yy, xx) by {
                    lemma_char_at_push_crlf(pre, yy, xx);
                }
            }
            y = y + 1;
            x = 0;
            i = i + 2;
        } else {
            proof {
                let pre = text@.take(i as int);
                assert(pre.push(c) =~= text@.take(i + 1));
                if i > 0 {
                    assert(pre.last() == text@[i - 1]);
                }
                lemma_end_push(pre, c);
                assert forall|yy: int, xx: int|
                    char_at(text@.take(i + 1), yy, xx) == (if c != '\n' && yy == y as int && xx
                        == x as int {
                        Some(c)
                    } else {
                        char_at(pre, yy, xx)
                    }) by {
                    lemma_char_at_push(pre, c, yy, xx);
                }
            }
            if c == '\n' {
                y = y + 1;
                x = 0;
            } else {
                if y < HEIGHT && x < WIDTH {
                    grid.set_cell(y, x, c == 'x');
                }
                x = x + 1;
            }
            i = i + 1;
        }
    }
    proof {
        assert(text@.take(text@.len() as int) =~= text@);
    }
}

} // verus!
