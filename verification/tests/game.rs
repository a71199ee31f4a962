use tetris::game::{GameState, State};
use tetris::tetromino::{Tetromino, TetrominoType};

type Cell = Option<TetrominoType>;

fn full_row(kind: TetrominoType) -> Vec<Cell> {
    vec![Some(kind); 10]
}

#[test]
fn fresh_game_starts_clean() {
    let gs = GameState::new(7);
    assert_eq!(gs.state, State::Playing);
    assert_eq!(gs.score, 0);
    assert_eq!(gs.high_score, 7);
    assert_eq!(gs.level, 1);
    assert_eq!(gs.lines_cleared, 0);
    assert!(!gs.game_over);
    assert!(gs.can_hold);
    assert_eq!(gs.held_piece, None);
    assert_eq!(gs.grid.len(), 20);
    for row in &gs.grid {
        assert_eq!(row, &vec![None; 10]);
    }
    assert_eq!(gs.current_piece.x, 3);
    assert_eq!(gs.current_piece.y, 0);
}

#[test]
fn reset_starts_over_with_given_high_score() {
    let mut gs = GameState::new(0);
    gs.score = 1234;
    gs.level = 4;
    gs.grid[19] = full_row(TetrominoType::I);
    gs.game_over = true;
    gs.reset(42);
    assert_eq!(gs.score, 0);
    assert_eq!(gs.high_score, 42);
    assert_eq!(gs.level, 1);
    assert!(!gs.game_over);
    assert_eq!(gs.grid[19], vec![None; 10]);
}

#[test]
fn single_clear_at_level_one_scores_100() {
    let mut gs = GameState::new(0);
    gs.grid[19] = full_row(TetrominoType::I);
    gs.lines_being_cleared = vec![19];
    gs.complete_line_clear();
    assert_eq!(gs.score, 100);
    assert_eq!(gs.lines_cleared, 1);
    assert_eq!(gs.level, 1);
    assert_eq!(gs.high_score, 100);
    assert_eq!(gs.grid[19], vec![None; 10]);
}

#[test]
fn four_clears_at_once_score_800() {
    let mut gs = GameState::new(0);
    for y in 16..20 {
        gs.grid[y] = full_row(TetrominoType::J);
    }
    gs.lines_being_cleared = vec![16, 17, 18, 19];
    gs.complete_line_clear();
    assert_eq!(gs.score, 800);
    assert_eq!(gs.lines_cleared, 4);
}

#[test]
fn more_than_four_clears_score_as_four() {
    let mut gs = GameState::new(0);
    for y in 15..20 {
        gs.grid[y] = full_row(TetrominoType::I);
    }
    gs.lines_being_cleared = vec![15, 16, 17, 18, 19];
    gs.complete_line_clear();
    // The base score caps at the four-row value.
    assert_eq!(gs.score, 800);
    assert_eq!(gs.lines_cleared, 5);
}

#[test]
fn clear_score_scales_with_level() {
    let mut gs = GameState::new(0);
    gs.level = 3;
    gs.lines_cleared = 25;
    gs.grid[18] = full_row(TetrominoType::S);
    gs.grid[19] = full_row(TetrominoType::S);
    gs.lines_being_cleared = vec![18, 19];
    gs.complete_line_clear();
    // Two rows score 300, times level 3.
    assert_eq!(gs.score, 900);
    assert_eq!(gs.lines_cleared, 27);
    assert_eq!(gs.level, 27 / 10 + 1);
}

#[test]
fn crossing_ten_total_lines_reaches_level_two() {
    let mut gs = GameState::new(0);
    gs.lines_cleared = 9;
    gs.grid[19] = full_row(TetrominoType::Z);
    gs.lines_being_cleared = vec![19];
    gs.complete_line_clear();
    assert_eq!(gs.lines_cleared, 10);
    assert_eq!(gs.level, 2);
}

#[test]
fn hard_drop_five_rows_awards_ten_points() {
    let mut gs = GameState::new(0);
    gs.current_piece = Tetromino::new(TetrominoType::I);
    // Fill rows 7..19 except the last column, so nothing is a full
    // row but the piece rests on row 7.
    for y in 7..20 {
        for x in 0..9 {
            gs.grid[y][x] = Some(TetrominoType::L);
        }
    }
    assert_eq!(gs.calculate_ghost_y(), 5);
    gs.hard_drop();
    // Five rows of descent at two points each, and no clear scoring.
    assert_eq!(gs.score, 10);
    assert_eq!(gs.state, State::Playing);
    assert!(!gs.game_over);
    assert_eq!(gs.grid[6][3], Some(TetrominoType::I));
    assert_eq!(gs.grid[6][6], Some(TetrominoType::I));
}

#[test]
fn hard_drop_on_empty_board_rests_on_floor() {
    let mut gs = GameState::new(0);
    gs.current_piece = Tetromino::new(TetrominoType::I);
    assert_eq!(gs.calculate_ghost_y(), 18);
    gs.hard_drop();
    assert_eq!(gs.score, 36);
    for x in 3..7 {
        assert_eq!(gs.grid[19][x], Some(TetrominoType::I));
    }
}

#[test]
fn hold_twice_in_a_row_changes_nothing() {
    let mut gs = GameState::new(0);
    gs.hold_piece();
    assert!(!gs.can_hold);
    let held = gs.held_piece;
    let current = gs.current_piece.tetromino_type;
    let next = gs.next_piece;
    let score = gs.score;
    let grid = gs.grid.clone();
    gs.hold_piece();
    assert_eq!(gs.held_piece, held);
    assert_eq!(gs.current_piece.tetromino_type, current);
    assert_eq!(gs.next_piece, next);
    assert_eq!(gs.score, score);
    assert_eq!(gs.grid, grid);
    assert!(!gs.can_hold);
}

#[test]
fn first_hold_stores_kind_and_spawns_preview() {
    let mut gs = GameState::new(0);
    let current = gs.current_piece.tetromino_type;
    let next = gs.next_piece;
    gs.hold_piece();
    assert_eq!(gs.held_piece, Some(current));
    assert_eq!(gs.current_piece.tetromino_type, next);
    assert_eq!(gs.current_piece.x, 3);
    assert_eq!(gs.current_piece.y, 0);
    assert!(!gs.can_hold);
}

#[test]
fn hold_with_stored_kind_swaps() {
    let mut gs = GameState::new(0);
    gs.held_piece = Some(TetrominoType::J);
    let current = gs.current_piece.tetromino_type;
    let next = gs.next_piece;
    gs.hold_piece();
    assert_eq!(gs.held_piece, Some(current));
    assert_eq!(gs.current_piece.tetromino_type, TetrominoType::J);
    assert_eq!(gs.current_piece.rotation, 0);
    // The swap consumes nothing from the bag.
    assert_eq!(gs.next_piece, next);
    assert!(!gs.can_hold);
}

#[test]
fn colliding_spawn_sets_game_over_and_keeps_board() {
    let mut gs = GameState::new(0);
    // Every kind's spawn matrix occupies a cell in rows 1 or 2.
    gs.grid[1] = full_row(TetrominoType::T);
    gs.grid[2] = full_row(TetrominoType::T);
    let grid = gs.grid.clone();
    gs.spawn_next_piece();
    assert!(gs.game_over);
    assert_eq!(gs.grid, grid);
}

#[test]
fn game_over_with_beaten_score_raises_high_score() {
    let mut gs = GameState::new(50);
    gs.score = 120;
    gs.grid[1] = full_row(TetrominoType::T);
    gs.grid[2] = full_row(TetrominoType::T);
    gs.spawn_next_piece();
    assert!(gs.game_over);
    assert_eq!(gs.high_score, 120);
}

#[test]
fn game_over_ignores_updates() {
    let mut gs = GameState::new(0);
    gs.game_over = true;
    let y = gs.current_piece.y;
    gs.update(5000, true);
    assert_eq!(gs.current_piece.y, y);
    assert_eq!(gs.score, 0);
}

#[test]
fn gravity_pulls_after_one_second_at_level_one() {
    let mut gs = GameState::new(0);
    gs.current_piece = Tetromino::new(TetrominoType::T);
    gs.update(999, false);
    assert_eq!(gs.current_piece.y, 0);
    gs.update(1, false);
    assert_eq!(gs.current_piece.y, 1);
    assert_eq!(gs.fall_timer, 0);
}

#[test]
fn gravity_halves_at_level_two() {
    let mut gs = GameState::new(0);
    gs.current_piece = Tetromino::new(TetrominoType::T);
    gs.level = 2;
    gs.update(499, false);
    assert_eq!(gs.current_piece.y, 0);
    gs.update(1, false);
    assert_eq!(gs.current_piece.y, 1);
}

#[test]
fn gravity_interval_never_reaches_zero() {
    let mut gs = GameState::new(0);
    gs.current_piece = Tetromino::new(TetrominoType::T);
    gs.level = 5000;
    gs.update(1, false);
    assert_eq!(gs.current_piece.y, 1);
}

#[test]
fn soft_drop_is_faster_and_scores_per_row() {
    let mut gs = GameState::new(0);
    gs.current_piece = Tetromino::new(TetrominoType::T);
    gs.update(49, true);
    assert_eq!(gs.current_piece.y, 0);
    assert_eq!(gs.score, 0);
    gs.update(1, true);
    assert_eq!(gs.current_piece.y, 1);
    assert_eq!(gs.score, 1);
}

#[test]
fn lock_delay_fires_after_half_second_on_ground() {
    let mut gs = GameState::new(0);
    gs.current_piece = Tetromino::new(TetrominoType::T);
    gs.current_piece.y = gs.calculate_ghost_y();
    gs.update(499, false);
    assert!(gs.is_on_ground);
    assert_eq!(gs.lock_timer, 499);
    assert_eq!(gs.grid[19][4], None);
    gs.update(1, false);
    // The piece locked: its cells are on the board, a fresh piece
    // spawned, and holding is allowed again.
    assert_eq!(gs.grid[19][3], Some(TetrominoType::T));
    assert_eq!(gs.grid[19][4], Some(TetrominoType::T));
    assert_eq!(gs.grid[19][5], Some(TetrominoType::T));
    assert_eq!(gs.grid[18][4], Some(TetrominoType::T));
    assert_eq!(gs.current_piece.y, 0);
    assert_eq!(gs.lock_timer, 0);
    assert!(gs.can_hold);
}

#[test]
fn lock_producing_full_row_starts_animation() {
    let mut gs = GameState::new(0);
    gs.current_piece = Tetromino::new(TetrominoType::I);
    // Bottom row full except the I piece's four columns.
    for x in 0..10 {
        if !(3..7).contains(&x) {
            gs.grid[19][x] = Some(TetrominoType::L);
        }
    }
    gs.hard_drop();
    assert_eq!(gs.state, State::LineClearAnimation);
    assert_eq!(gs.lines_being_cleared, vec![19]);
    // The full row still shows until the animation ends.
    assert_eq!(gs.grid[19][3], Some(TetrominoType::I));
    assert_eq!(gs.score, 36);
}

#[test]
fn animation_finishes_after_300_ms_and_scores() {
    let mut gs = GameState::new(0);
    gs.grid[19] = full_row(TetrominoType::Z);
    gs.lines_being_cleared = vec![19];
    gs.state = State::LineClearAnimation;
    gs.line_clear_timer = 0;
    gs.update(299, false);
    assert_eq!(gs.state, State::LineClearAnimation);
    assert_eq!(gs.line_clear_timer, 299);
    assert_eq!(gs.score, 0);
    gs.update(1, false);
    assert_eq!(gs.state, State::Playing);
    assert_eq!(gs.line_clear_timer, 0);
    assert!(gs.lines_being_cleared.is_empty());
    assert_eq!(gs.score, 100);
    assert_eq!(gs.grid[19], vec![None; 10]);
}

#[test]
fn moves_stop_at_the_walls() {
    let mut gs = GameState::new(0);
    gs.current_piece = Tetromino::new(TetrominoType::I);
    for _ in 0..10 {
        gs.move_left();
    }
    assert_eq!(gs.current_piece.x, 0);
    for _ in 0..20 {
        gs.move_right();
    }
    assert_eq!(gs.current_piece.x, 6);
}

#[test]
fn blocked_move_is_rejected_whole() {
    let mut gs = GameState::new(0);
    gs.current_piece = Tetromino::new(TetrominoType::O);
    // A wall of locked cells directly left of the O piece.
    for y in 0..20 {
        gs.grid[y][3] = Some(TetrominoType::J);
    }
    gs.move_left();
    assert_eq!(gs.current_piece.x, 3);
}

#[test]
fn rotation_against_the_wall_kicks_or_is_discarded() {
    let mut gs = GameState::new(0);
    gs.current_piece = Tetromino::new(TetrominoType::I);
    gs.rotate_cw();
    // Vertical I: one column of four cells.
    assert_eq!(gs.current_piece.rotation, 1);
    for _ in 0..10 {
        gs.move_left();
    }
    assert_eq!(gs.current_piece.x, -2);
    let shape = gs.current_piece.shape.clone();
    // Back to horizontal needs columns -2..2 even after every kick:
    // the rotation is discarded whole.
    gs.rotate_ccw();
    assert_eq!(gs.current_piece.shape, shape);
    assert_eq!(gs.current_piece.rotation, 1);
    assert_eq!(gs.current_piece.x, -2);
}

#[test]
fn rotation_in_the_open_needs_no_kick() {
    let mut gs = GameState::new(0);
    gs.current_piece = Tetromino::new(TetrominoType::T);
    let (x, y) = (gs.current_piece.x, gs.current_piece.y);
    gs.rotate_cw();
    assert_eq!(gs.current_piece.x, x);
    assert_eq!(gs.current_piece.y, y);
    assert_eq!(gs.current_piece.rotation, 1);
    gs.rotate_ccw();
    assert_eq!(gs.current_piece.rotation, 0);
    assert_eq!(gs.current_piece.shape, TetrominoType::T.shape());
}

#[test]
fn ghost_row_tracks_stack_height() {
    let mut gs = GameState::new(0);
    gs.current_piece = Tetromino::new(TetrominoType::O);
    assert_eq!(gs.calculate_ghost_y(), 17);
    gs.grid[19] = full_row(TetrominoType::I);
    assert_eq!(gs.calculate_ghost_y(), 16);
}
