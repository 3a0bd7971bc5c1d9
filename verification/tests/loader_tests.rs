use life::grid::Grid;
use life::loader::load_pattern;

fn chars_of(text: &str) -> Vec<char> {
    text.chars().collect()
}

#[test]
fn loads_x_as_alive_and_others_as_dead() {
    let mut g = Grid::new();
    load_pattern(&mut g, &chars_of("x x\n.xo"));
    assert!(g.get_cell(0, 0));
    assert!(!g.get_cell(0, 1));
    assert!(g.get_cell(0, 2));
    assert!(!g.get_cell(1, 0));
    assert!(g.get_cell(1, 1));
    assert!(!g.get_cell(1, 2));
}

#[test]
fn uppercase_x_is_dead() {
    let mut g = Grid::new();
    load_pattern(&mut g, &chars_of("X"));
    assert!(!g.get_cell(0, 0));
}

#[test]
fn short_input_leaves_unspecified_cells_dead() {
    let mut g = Grid::new();
    load_pattern(&mut g, &chars_of("x"));
    assert!(g.get_cell(0, 0));
    for y in 0..48isize {
        for x in 0..128isize {
            if (y, x) != (0, 0) {
                assert!(!g.get_cell(y, x));
            }
        }
    }
}

#[test]
fn unspecified_cells_keep_their_previous_value() {
    let mut g = Grid::new();
    g.set_cell(5, 5, true);
    g.set_cell(0, 1, true);
    load_pattern(&mut g, &chars_of("x."));
    // (5, 5) lies past the text: untouched.
    assert!(g.get_cell(5, 5));
    // (0, 1) is covered by a non-x character: dead now.
    assert!(!g.get_cell(0, 1));
    assert!(g.get_cell(0, 0));
}

#[test]
fn oversized_input_is_clamped() {
    let line = "x".repeat(200);
    let mut text = String::new();
    for _ in 0..60 {
        text.push_str(&line);
        text.push('\n');
    }
    let mut g = Grid::new();
    load_pattern(&mut g, &chars_of(&text));
    for y in 0..48isize {
        for x in 0..128isize {
            assert!(g.get_cell(y, x));
        }
    }
    assert!(!g.get_cell(48, 0));
    assert!(!g.get_cell(0, 128));
}

#[test]
fn empty_text_changes_nothing() {
    let mut g = Grid::new();
    load_pattern(&mut g, &chars_of(""));
    for y in 0..48isize {
        for x in 0..128isize {
            assert!(!g.get_cell(y, x));
        }
    }
}

#[test]
fn crlf_is_a_single_row_separator() {
    let mut g = Grid::new();
    load_pattern(&mut g, &chars_of("x\r\nxx"));
    assert!(g.get_cell(0, 0));
    assert!(!g.get_cell(0, 1));
    assert!(g.get_cell(1, 0));
    assert!(g.get_cell(1, 1));
}

#[test]
fn crlf_covers_no_cell() {
    // The carriage return of a separator pair is not a cell position: the
    // column under it keeps its previous value.
    let mut g = Grid::new();
    g.set_cell(0, 1, true);
    load_pattern(&mut g, &chars_of("x\r\n"));
    assert!(g.get_cell(0, 0));
    assert!(g.get_cell(0, 1));
}

#[test]
fn lone_carriage_return_is_an_ordinary_dead_cell() {
    let mut g = Grid::new();
    g.set_cell(0, 1, true);
    load_pattern(&mut g, &chars_of("x\rx"));
    assert!(g.get_cell(0, 0));
    assert!(!g.get_cell(0, 1));
    assert!(g.get_cell(0, 2));
}

#[test]
fn blank_lines_advance_rows() {
    let mut g = Grid::new();
    load_pattern(&mut g, &chars_of("\n\nx"));
    assert!(!g.get_cell(0, 0));
    assert!(!g.get_cell(1, 0));
    assert!(g.get_cell(2, 0));
}
