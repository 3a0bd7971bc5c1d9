use life::grid::Grid;

fn alive_cells(g: &Grid) -> Vec<(isize, isize)> {
    let mut cells = Vec::new();
    for y in 0..48isize {
        for x in 0..128isize {
            if g.get_cell(y, x) {
                cells.push((y, x));
            }
        }
    }
    cells
}

#[test]
fn dead_grid_stays_dead() {
    let mut g = Grid::new();
    g.tick();
    assert_eq!(alive_cells(&g), Vec::new());
}

#[test]
fn isolated_cell_dies() {
    let mut g = Grid::new();
    g.set_cell(5, 5, true);
    g.tick();
    assert_eq!(alive_cells(&g), Vec::new());
}

#[test]
fn block_is_still_life() {
    let mut g = Grid::new();
    g.set_cell(10, 10, true);
    g.set_cell(10, 11, true);
    g.set_cell(11, 10, true);
    g.set_cell(11, 11, true);
    let before = alive_cells(&g);
    g.tick();
    assert_eq!(alive_cells(&g), before);
    g.tick();
    assert_eq!(alive_cells(&g), before);
}

#[test]
fn blinker_oscillates_with_period_two() {
    let mut g = Grid::new();
    g.set_cell(20, 30, true);
    g.set_cell(20, 31, true);
    g.set_cell(20, 32, true);
    let row_phase = alive_cells(&g);
    g.tick();
    let column_phase = alive_cells(&g);
    assert_ne!(column_phase, row_phase);
    assert_eq!(column_phase, vec![(19, 31), (20, 31), (21, 31)]);
    g.tick();
    assert_eq!(alive_cells(&g), row_phase);
}

#[test]
fn corner_cell_counts_only_real_neighbors() {
    let mut g = Grid::new();
    g.set_cell(0, 1, true);
    g.set_cell(1, 0, true);
    g.set_cell(1, 1, true);
    assert_eq!(g.count_neighbors(0, 0), 3);
    assert_eq!(g.count_neighbors(47, 127), 0);
    g.set_cell(46, 126, true);
    assert_eq!(g.count_neighbors(47, 127), 1);
}

#[test]
fn corner_block_is_stable_at_the_border() {
    let mut g = Grid::new();
    g.set_cell(0, 0, true);
    g.set_cell(0, 1, true);
    g.set_cell(1, 0, true);
    g.set_cell(1, 1, true);
    let before = alive_cells(&g);
    g.tick();
    assert_eq!(alive_cells(&g), before);
}

#[test]
fn count_neighbors_sees_all_eight() {
    let mut g = Grid::new();
    for y in 4..=6 {
        for x in 4..=6 {
            g.set_cell(y, x, true);
        }
    }
    assert_eq!(g.count_neighbors(5, 5), 8);
}

#[test]
fn overcrowded_cell_dies() {
    let mut g = Grid::new();
    g.set_cell(5, 5, true);
    g.set_cell(4, 4, true);
    g.set_cell(4, 6, true);
    g.set_cell(6, 4, true);
    g.set_cell(6, 6, true);
    g.tick();
    assert!(!g.get_cell(5, 5));
}

#[test]
fn dead_cell_with_three_neighbors_is_born() {
    let mut g = Grid::new();
    g.set_cell(4, 5, true);
    g.set_cell(5, 4, true);
    g.set_cell(5, 6, true);
    assert!(!g.get_cell(5, 5));
    g.tick();
    assert!(g.get_cell(5, 5));
}
