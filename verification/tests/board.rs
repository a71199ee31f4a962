use tetris::board::{find_full_rows, lock_cells, remove_rows};
use tetris::tetromino::TetrominoType;

type Cell = Option<TetrominoType>;

fn empty_grid() -> Vec<Vec<Cell>> {
    vec![vec![None; 10]; 20]
}

fn full_grid() -> Vec<Vec<Cell>> {
    vec![vec![Some(TetrominoType::I); 10]; 20]
}

#[test]
fn full_board_reports_every_row() {
    let rows = find_full_rows(&full_grid());
    assert_eq!(rows, (0..20).collect::<Vec<usize>>());
}

#[test]
fn empty_board_reports_no_rows() {
    let rows = find_full_rows(&empty_grid());
    assert!(rows.is_empty());
}

#[test]
fn one_missing_cell_keeps_a_row_out() {
    let mut grid = empty_grid();
    grid[19] = vec![Some(TetrominoType::L); 10];
    grid[17] = vec![Some(TetrominoType::J); 10];
    grid[17][4] = None;
    assert_eq!(find_full_rows(&grid), vec![19]);
}

#[test]
fn remove_rows_keeps_height_and_shifts_down() {
    let mut grid = empty_grid();
    // A marker row above two full rows.
    grid[15] = vec![Some(TetrominoType::T); 10];
    grid[18] = vec![Some(TetrominoType::I); 10];
    grid[19] = vec![Some(TetrominoType::I); 10];
    let rows: Vec<usize> = vec![18, 19];
    remove_rows(&mut grid, &rows);
    assert_eq!(grid.len(), 20);
    for row in &grid {
        assert_eq!(row.len(), 10);
    }
    // Two empty rows entered at the top.
    assert_eq!(grid[0], vec![None; 10]);
    assert_eq!(grid[1], vec![None; 10]);
    // The marker moved down by the two rows removed below it.
    assert_eq!(grid[17], vec![Some(TetrominoType::T); 10]);
    assert_eq!(grid[15], vec![None; 10]);
}

#[test]
fn remove_rows_above_marker_leaves_it_in_place() {
    let mut grid = empty_grid();
    grid[3] = vec![Some(TetrominoType::S); 10];
    grid[19] = vec![Some(TetrominoType::Z); 10];
    let rows: Vec<usize> = vec![3];
    remove_rows(&mut grid, &rows);
    // No removed row lies below row 19, so it stays put.
    assert_eq!(grid[19], vec![Some(TetrominoType::Z); 10]);
    assert_eq!(grid[3], vec![None; 10]);
    assert_eq!(grid[0], vec![None; 10]);
}

#[test]
fn lock_writes_piece_cells() {
    let mut grid = empty_grid();
    let shape = TetrominoType::O.shape();
    lock_cells(&mut grid, &shape, 4, 17, TetrominoType::O);
    // O occupies the central 2x2 of its matrix.
    assert_eq!(grid[18][5], Some(TetrominoType::O));
    assert_eq!(grid[18][6], Some(TetrominoType::O));
    assert_eq!(grid[19][5], Some(TetrominoType::O));
    assert_eq!(grid[19][6], Some(TetrominoType::O));
    let filled: usize = grid
        .iter()
        .map(|row| row.iter().filter(|c| c.is_some()).count())
        .sum();
    assert_eq!(filled, 4);
}

#[test]
fn lock_above_top_is_a_no_op() {
    let mut grid = empty_grid();
    let before = grid.clone();
    let shape = TetrominoType::I.shape();
    // Every occupied cell sits at a negative row.
    lock_cells(&mut grid, &shape, 3, -4, TetrominoType::I);
    assert_eq!(grid, before);
}

#[test]
fn lock_beyond_bounds_is_a_no_op() {
    let mut grid = full_grid();
    let before = grid.clone();
    let shape = TetrominoType::T.shape();
    lock_cells(&mut grid, &shape, 100, 5, TetrominoType::T);
    lock_cells(&mut grid, &shape, -100, 5, TetrominoType::T);
    lock_cells(&mut grid, &shape, 3, 20, TetrominoType::T);
    assert_eq!(grid, before);
}

#[test]
fn lock_partly_above_top_writes_the_visible_part() {
    let mut grid = empty_grid();
    let shape = TetrominoType::O.shape();
    // Matrix rows 1 and 2 are occupied; at y = -2 only row 2 lands on
    // the board, in row 0.
    lock_cells(&mut grid, &shape, 4, -2, TetrominoType::O);
    assert_eq!(grid[0][5], Some(TetrominoType::O));
    assert_eq!(grid[0][6], Some(TetrominoType::O));
    let filled: usize = grid
        .iter()
        .map(|row| row.iter().filter(|c| c.is_some()).count())
        .sum();
    assert_eq!(filled, 2);
}
