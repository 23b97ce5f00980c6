use game_of_life::{CellState, Conways, Position, COLUMNS, ROWS};
use rand::rngs::StdRng;
use rand::SeedableRng;

fn alive_positions(conways: &Conways) -> Vec<Position> {
    let mut found = Vec::new();
    for (x, row) in conways.grid.iter().enumerate() {
        for (y, cell) in row.iter().enumerate() {
            if *cell == CellState::Alive {
                found.push((x, y));
            }
        }
    }
    found
}

fn full_grid() -> Conways {
    let mut cells = Vec::new();
    for x in 0..ROWS {
        for y in 0..COLUMNS {
            cells.push((x, y));
        }
    }
    Conways::from(cells)
}

fn assert_shape(conways: &Conways) {
    assert_eq!(conways.grid.len(), ROWS);
    for row in conways.grid.iter() {
        assert_eq!(row.len(), COLUMNS);
    }
}

#[test]
fn dimensions_are_thirty_two_by_thirty_two() {
    assert_eq!(ROWS, 32);
    assert_eq!(COLUMNS, 32);
}

#[test]
fn new_grid_is_all_dead() {
    let conways = Conways::new();
    assert_shape(&conways);
    assert_eq!(alive_positions(&conways), vec![]);
}

#[test]
fn from_nothing_equals_new() {
    assert_eq!(Conways::from(vec![]).grid, Conways::new().grid);
}

#[test]
fn from_marks_exactly_the_listed_cells() {
    let conways = Conways::from(vec![(5, 7), (0, 0), (31, 31), (5, 6)]);
    assert_shape(&conways);
    assert_eq!(alive_positions(&conways), vec![(0, 0), (5, 6), (5, 7), (31, 31)]);
}

#[test]
fn from_ignores_positions_outside_the_grid() {
    let conways = Conways::from(vec![
        (32, 0),
        (0, 32),
        (32, 32),
        (1, 2),
        (usize::MAX, 3),
        (3, usize::MAX),
        (100, 100),
    ]);
    assert_shape(&conways);
    assert_eq!(alive_positions(&conways), vec![(1, 2)]);
}

#[test]
fn from_collapses_duplicates_and_ignores_order() {
    let once = Conways::from(vec![(1, 1), (2, 3), (4, 4)]);
    let twice = Conways::from(vec![(4, 4), (1, 1), (2, 3), (1, 1), (4, 4), (40, 1)]);
    assert_eq!(once.grid, twice.grid);
    assert_eq!(alive_positions(&twice), vec![(1, 1), (2, 3), (4, 4)]);
}

#[test]
fn is_alive_reads_one_cell() {
    let conways = Conways::from(vec![(3, 4)]);
    assert!(conways.is_alive((3, 4)));
    assert!(!conways.is_alive((4, 3)));
    assert!(!conways.is_alive((32, 4)));
    assert!(!conways.is_alive((3, 32)));
    assert!(!conways.is_alive((usize::MAX, usize::MAX)));
}

#[test]
fn count_neighbors_on_a_full_grid() {
    let conways = full_grid();
    assert_eq!(conways.count_neighbors((0, 0)), 3);
    assert_eq!(conways.count_neighbors((0, 31)), 3);
    assert_eq!(conways.count_neighbors((31, 0)), 3);
    assert_eq!(conways.count_neighbors((31, 31)), 3);
    assert_eq!(conways.count_neighbors((0, 10)), 5);
    assert_eq!(conways.count_neighbors((31, 10)), 5);
    assert_eq!(conways.count_neighbors((10, 0)), 5);
    assert_eq!(conways.count_neighbors((10, 31)), 5);
    assert_eq!(conways.count_neighbors((10, 10)), 8);
}

#[test]
fn count_neighbors_never_exceeds_eight() {
    let conways = full_grid();
    for x in 0..ROWS + 2 {
        for y in 0..COLUMNS + 2 {
            assert!(conways.count_neighbors((x, y)) <= 8);
        }
    }
}

#[test]
fn count_neighbors_does_not_count_the_cell_itself() {
    let conways = Conways::from(vec![(5, 5)]);
    assert_eq!(conways.count_neighbors((5, 5)), 0);
}

#[test]
fn count_neighbors_sees_all_eight_directions() {
    let center: Position = (5, 5);
    let around: Vec<Position> =
        vec![(4, 4), (4, 5), (4, 6), (5, 4), (5, 6), (6, 4), (6, 5), (6, 6)];
    for &p in around.iter() {
        let conways = Conways::from(vec![p]);
        assert_eq!(conways.count_neighbors(center), 1);
        let back = Conways::from(vec![center]);
        assert_eq!(back.count_neighbors(p), 1);
    }
    assert_eq!(Conways::from(around).count_neighbors(center), 8);
    assert_eq!(Conways::from(vec![(3, 5), (5, 7), (7, 7)]).count_neighbors(center), 0);
}

#[test]
fn count_neighbors_outside_the_grid() {
    let conways = full_grid();
    assert_eq!(conways.count_neighbors((32, 0)), 2);
    assert_eq!(conways.count_neighbors((32, 5)), 3);
    assert_eq!(conways.count_neighbors((32, 32)), 1);
    assert_eq!(conways.count_neighbors((5, 32)), 3);
    assert_eq!(conways.count_neighbors((33, 0)), 0);
    assert_eq!(conways.count_neighbors((0, 33)), 0);
    assert_eq!(conways.count_neighbors((100, 100)), 0);
}

#[test]
fn count_neighbors_does_not_wrap_at_the_largest_coordinate() {
    let conways = full_grid();
    assert_eq!(conways.count_neighbors((usize::MAX, 0)), 0);
    assert_eq!(conways.count_neighbors((0, usize::MAX)), 0);
    assert_eq!(conways.count_neighbors((usize::MAX, usize::MAX)), 0);
    assert_eq!(conways.count_neighbors((usize::MAX - 1, 5)), 0);
}

#[test]
fn count_neighbors_does_not_wrap_at_the_edges() {
    let conways = Conways::from(vec![(0, 31), (31, 0), (31, 31)]);
    assert_eq!(conways.count_neighbors((0, 0)), 0);
}

#[test]
fn count_neighbors_leaves_the_grid_alone() {
    let conways = Conways::from(vec![(1, 1), (1, 2)]);
    let before = conways.grid.clone();
    conways.count_neighbors((1, 1));
    assert_eq!(conways.grid, before);
}

#[test]
fn blinker_oscillates_with_period_two() {
    let mut conways = Conways::from(vec![(0, 1), (1, 1), (2, 1)]);
    conways.update_cells();
    assert_shape(&conways);
    assert_eq!(alive_positions(&conways), vec![(1, 0), (1, 1), (1, 2)]);
    assert_eq!(conways.grid[0][1], CellState::Dead);
    assert_eq!(conways.grid[2][1], CellState::Dead);
    conways.update_cells();
    assert_eq!(alive_positions(&conways), vec![(0, 1), (1, 1), (2, 1)]);
}

#[test]
fn lone_corner_cell_dies() {
    let mut conways = Conways::from(vec![(0, 0)]);
    assert_eq!(conways.count_neighbors((0, 0)), 0);
    conways.update_cells();
    assert_eq!(conways.grid, Conways::new().grid);
}

#[test]
fn block_is_still() {
    let block = vec![(10, 10), (10, 11), (11, 10), (11, 11)];
    let mut conways = Conways::from(block.clone());
    conways.update_cells();
    assert_eq!(alive_positions(&conways), block);
}

#[test]
fn live_cell_with_one_neighbor_dies() {
    let mut conways = Conways::from(vec![(5, 5), (5, 6)]);
    assert_eq!(conways.count_neighbors((5, 5)), 1);
    conways.update_cells();
    assert_eq!(conways.grid[5][5], CellState::Dead);
    assert_eq!(conways.grid[5][6], CellState::Dead);
}

#[test]
fn live_cell_with_four_neighbors_dies() {
    let mut conways = Conways::from(vec![(5, 5), (4, 5), (6, 5), (5, 4), (5, 6)]);
    assert_eq!(conways.count_neighbors((5, 5)), 4);
    conways.update_cells();
    assert_eq!(conways.grid[5][5], CellState::Dead);
}

#[test]
fn live_cell_with_eight_neighbors_dies() {
    let mut conways = full_grid();
    conways.update_cells();
    assert_eq!(conways.grid[10][10], CellState::Dead);
    assert_eq!(conways.grid[0][10], CellState::Dead);
    assert_eq!(alive_positions(&conways), vec![(0, 0), (0, 31), (31, 0), (31, 31)]);
}

#[test]
fn live_cell_with_two_neighbors_survives() {
    let mut conways = Conways::from(vec![(5, 5), (4, 4), (6, 6)]);
    assert_eq!(conways.count_neighbors((5, 5)), 2);
    conways.update_cells();
    assert_eq!(alive_positions(&conways), vec![(5, 5)]);
}

#[test]
fn live_cell_with_three_neighbors_survives() {
    let mut conways = Conways::from(vec![(5, 5), (4, 4), (6, 6), (4, 6)]);
    assert_eq!(conways.count_neighbors((5, 5)), 3);
    conways.update_cells();
    assert_eq!(conways.grid[5][5], CellState::Alive);
}

#[test]
fn dead_cell_with_three_neighbors_is_born() {
    let mut conways = Conways::from(vec![(4, 4), (6, 6), (4, 6)]);
    assert_eq!(conways.count_neighbors((5, 5)), 3);
    conways.update_cells();
    assert_eq!(conways.grid[5][5], CellState::Alive);
}

#[test]
fn dead_cell_with_two_or_four_neighbors_stays_dead() {
    let mut two = Conways::from(vec![(4, 4), (6, 6)]);
    two.update_cells();
    assert_eq!(two.grid[5][5], CellState::Dead);
    let mut four = Conways::from(vec![(4, 4), (6, 6), (4, 6), (6, 4)]);
    assert_eq!(four.count_neighbors((5, 5)), 4);
    four.update_cells();
    assert_eq!(four.grid[5][5], CellState::Dead);
}

#[test]
fn step_reads_only_the_previous_generation() {
    // A glider: every cell of the next generation is known.
    let mut conways = Conways::from(vec![(0, 1), (1, 2), (2, 0), (2, 1), (2, 2)]);
    conways.update_cells();
    assert_eq!(alive_positions(&conways), vec![(1, 0), (1, 2), (2, 1), (2, 2), (3, 1)]);
}

#[test]
fn step_is_deterministic() {
    let cells = vec![(0, 1), (1, 2), (2, 0), (2, 1), (2, 2), (31, 31), (30, 31), (31, 30)];
    let mut first = Conways::from(cells.clone());
    let mut reversed = cells;
    reversed.reverse();
    let mut second = Conways::from(reversed);
    for _ in 0..10 {
        first.update_cells();
        second.update_cells();
        assert_eq!(first.grid, second.grid);
    }
}

#[test]
fn step_of_the_blank_grid_is_blank() {
    let mut conways = Conways::new();
    conways.update_cells();
    assert_eq!(conways.grid, Conways::new().grid);
}

#[test]
fn toggle_flips_one_cell_only() {
    let mut conways = Conways::from(vec![(3, 3)]);
    conways.toggle_state_cell((3, 4));
    assert_eq!(alive_positions(&conways), vec![(3, 3), (3, 4)]);
    conways.toggle_state_cell((3, 3));
    assert_eq!(alive_positions(&conways), vec![(3, 4)]);
    assert_shape(&conways);
}

#[test]
fn toggle_twice_restores_the_grid() {
    let cells = vec![(0, 0), (7, 9), (31, 31)];
    for &p in [(0, 0), (7, 9), (8, 9), (31, 0), (32, 0), (0, 32), (usize::MAX, 1)].iter() {
        let mut conways = Conways::from(cells.clone());
        conways.toggle_state_cell(p);
        conways.toggle_state_cell(p);
        assert_eq!(conways.grid, Conways::from(cells.clone()).grid);
    }
}

#[test]
fn toggle_outside_the_grid_changes_nothing() {
    let cells = vec![(0, 0), (7, 9), (31, 31)];
    let mut conways = Conways::from(cells.clone());
    conways.toggle_state_cell((32, 0));
    conways.toggle_state_cell((0, 32));
    conways.toggle_state_cell((usize::MAX, usize::MAX));
    assert_eq!(alive_positions(&conways), cells);
    assert_shape(&conways);
}

#[test]
fn kill_all_cells_clears_any_grid() {
    let mut conways = full_grid();
    conways.kill_all_cells();
    assert_shape(&conways);
    assert_eq!(conways.grid, Conways::new().grid);
    conways.kill_all_cells();
    assert_eq!(conways.grid, Conways::new().grid);
}

#[test]
fn random_grid_has_about_the_expected_density() {
    // 512 draws with replacement over 1024 cells leave about 403 distinct
    // cells alive, and never more than 512.
    for seed in 0..20u64 {
        let mut rng = StdRng::seed_from_u64(seed);
        let conways = Conways::from_random_cells(&mut rng);
        assert_shape(&conways);
        let alive = alive_positions(&conways).len();
        assert!(alive <= (ROWS * COLUMNS) / 2);
        assert!(alive >= 330, "seed {seed}: only {alive} alive");
        assert!(alive <= 470, "seed {seed}: as many as {alive} alive");
    }
}

#[test]
fn random_grid_is_reproducible_from_the_seed() {
    let mut first = StdRng::seed_from_u64(7);
    let mut second = StdRng::seed_from_u64(7);
    let a = Conways::from_random_cells(&mut first);
    let b = Conways::from_random_cells(&mut second);
    assert_eq!(a.grid, b.grid);
}

#[test]
fn random_grid_advances_the_generator() {
    let mut rng = StdRng::seed_from_u64(7);
    let a = Conways::from_random_cells(&mut rng);
    let b = Conways::from_random_cells(&mut rng);
    assert_ne!(a.grid, b.grid);
}

#[test]
fn random_grid_reaches_every_row_and_column() {
    let mut rng = StdRng::seed_from_u64(1);
    let mut rows = vec![false; ROWS];
    let mut columns = vec![false; COLUMNS];
    for _ in 0..20 {
        let conways = Conways::from_random_cells(&mut rng);
        for (x, y) in alive_positions(&conways) {
            rows[x] = true;
            columns[y] = true;
        }
    }
    assert!(rows.iter().all(|&seen| seen));
    assert!(columns.iter().all(|&seen| seen));
}
