use life::grid::Grid;

#[test]
fn new_grid_is_all_dead() {
    let g = Grid::new();
    for y in 0..48isize {
        for x in 0..128isize {
            assert!(!g.get_cell(y, x));
        }
    }
}

#[test]
fn set_cell_changes_only_that_cell() {
    let mut g = Grid::new();
    g.set_cell(10, 20, true);
    assert!(g.get_cell(10, 20));
    assert!(!g.get_cell(10, 19));
    assert!(!g.get_cell(10, 21));
    assert!(!g.get_cell(9, 20));
    assert!(!g.get_cell(11, 20));
    g.set_cell(10, 20, false);
    assert!(!g.get_cell(10, 20));
}

#[test]
fn out_of_range_reads_are_dead() {
    let mut g = Grid::new();
    // Fill the whole border so a wrapping read would be visible.
    for y in 0..48 {
        g.set_cell(y, 0, true);
        g.set_cell(y, 127, true);
    }
    for x in 0..128 {
        g.set_cell(0, x, true);
        g.set_cell(47, x, true);
    }
    assert!(!g.get_cell(-1, 0));
    assert!(!g.get_cell(0, -1));
    assert!(!g.get_cell(-1, -1));
    assert!(!g.get_cell(48, 0));
    assert!(!g.get_cell(0, 128));
    assert!(!g.get_cell(48, 128));
    assert!(!g.get_cell(isize::MIN, isize::MIN));
    assert!(!g.get_cell(isize::MAX, isize::MAX));
}
