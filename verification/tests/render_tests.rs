use life::grid::Grid;
use life::render::render;

const BLOCK: char = '\u{2588}';

fn lines_of(frame: &[char]) -> Vec<String> {
    let text: String = frame.iter().collect();
    text.split('\n').map(|l| l.to_string()).collect()
}

#[test]
fn frame_has_one_line_per_row() {
    let g = Grid::new();
    let frame = render(&g);
    // 48 rows of a 2-character label, 128 cells and a newline.
    assert_eq!(frame.len(), 48 * (2 + 128 + 1));
    let lines = lines_of(&frame);
    // The final newline leaves one empty trailing piece.
    assert_eq!(lines.len(), 49);
    assert_eq!(lines[48], "");
}

#[test]
fn row_labels_are_padded_to_two_characters() {
    let g = Grid::new();
    let lines = lines_of(&render(&g));
    for y in 0..48usize {
        assert_eq!(lines[y][..2], format!("{:2}", y));
    }
}

#[test]
fn dead_grid_renders_all_spaces() {
    let g = Grid::new();
    let lines = lines_of(&render(&g));
    for y in 0..48usize {
        let cells: Vec<char> = lines[y].chars().skip(2).collect();
        assert_eq!(cells.len(), 128);
        assert!(cells.iter().all(|c| *c == ' '));
    }
}

#[test]
fn alive_cells_render_as_blocks() {
    let mut g = Grid::new();
    g.set_cell(0, 0, true);
    g.set_cell(12, 100, true);
    g.set_cell(47, 127, true);
    let frame = render(&g);
    let lines = lines_of(&frame);
    for y in 0..48usize {
        let cells: Vec<char> = lines[y].chars().skip(2).collect();
        for x in 0..128usize {
            let expected = (y, x) == (0, 0) || (y, x) == (12, 100) || (y, x) == (47, 127);
            assert_eq!(cells[x] == BLOCK, expected, "row {} column {}", y, x);
        }
    }
}

#[test]
fn render_does_not_change_the_grid() {
    let mut g = Grid::new();
    g.set_cell(3, 4, true);
    let first = render(&g);
    let second = render(&g);
    assert_eq!(first, second);
    assert!(g.get_cell(3, 4));
}
