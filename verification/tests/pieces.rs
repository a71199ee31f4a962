use tetris::tetromino::{Tetromino, TetrominoType};

fn non_o_kinds() -> Vec<TetrominoType> {
    vec![
        TetrominoType::I,
        TetrominoType::T,
        TetrominoType::S,
        TetrominoType::Z,
        TetrominoType::J,
        TetrominoType::L,
    ]
}

#[test]
fn spawn_position_and_shape() {
    let p = Tetromino::new(TetrominoType::I);
    assert_eq!(p.tetromino_type, TetrominoType::I);
    assert_eq!(p.x, 3);
    assert_eq!(p.y, 0);
    assert_eq!(p.rotation, 0);
    assert_eq!(p.shape, vec![
        vec![0u8, 0, 0, 0],
        vec![1, 1, 1, 1],
        vec![0, 0, 0, 0],
        vec![0, 0, 0, 0],
    ]);
}

#[test]
fn shape_catalog_has_four_cells_each() {
    for kind in TetrominoType::all_types() {
        let shape = kind.shape();
        assert_eq!(shape.len(), 4);
        let mut cells = 0;
        for row in &shape {
            assert_eq!(row.len(), 4);
            for &c in row {
                assert!(c == 0 || c == 1);
                if c == 1 {
                    cells += 1;
                }
            }
        }
        assert_eq!(cells, 4);
    }
}

#[test]
fn all_types_lists_the_seven_kinds_once() {
    let kinds = TetrominoType::all_types();
    assert_eq!(kinds.len(), 7);
    for a in 0..kinds.len() {
        for b in 0..a {
            assert_ne!(kinds[a], kinds[b]);
        }
    }
}

#[test]
fn rotate_cw_then_ccw_restores_shape() {
    for kind in non_o_kinds() {
        let mut p = Tetromino::new(kind);
        let before = p.shape.clone();
        p.rotate_cw();
        assert_ne!(p.shape, before);
        p.rotate_ccw();
        assert_eq!(p.shape, before);
    }
}

#[test]
fn rotate_ccw_then_cw_restores_shape() {
    for kind in non_o_kinds() {
        let mut p = Tetromino::new(kind);
        let before = p.shape.clone();
        p.rotate_ccw();
        p.rotate_cw();
        assert_eq!(p.shape, before);
    }
}

#[test]
fn four_quarter_turns_restore_shape_and_index() {
    for kind in non_o_kinds() {
        let mut p = Tetromino::new(kind);
        let before = p.shape.clone();
        for turn in 1..=4 {
            p.rotate_cw();
            assert_eq!(p.rotation, (turn % 4) as u8);
        }
        assert_eq!(p.shape, before);
    }
}

#[test]
fn o_piece_unchanged_by_any_rotations() {
    let mut p = Tetromino::new(TetrominoType::O);
    let shape = p.shape.clone();
    let blocks = p.get_blocks();
    p.rotate_cw();
    p.rotate_cw();
    p.rotate_ccw();
    p.rotate_cw();
    p.rotate_ccw();
    assert_eq!(p.shape, shape);
    assert_eq!(p.get_blocks(), blocks);
    assert_eq!(p.rotation, 0);
}

#[test]
fn rotated_t_points_right() {
    let mut p = Tetromino::new(TetrominoType::T);
    p.rotate_cw();
    assert_eq!(p.shape, vec![
        vec![0u8, 1, 0, 0],
        vec![0, 1, 1, 0],
        vec![0, 1, 0, 0],
        vec![0, 0, 0, 0],
    ]);
    assert_eq!(p.rotation, 1);
}

#[test]
fn get_blocks_offsets_by_origin() {
    let mut p = Tetromino::new(TetrominoType::I);
    p.x = 2;
    p.y = 5;
    let mut blocks = p.get_blocks();
    blocks.sort();
    assert_eq!(blocks, vec![(2, 6), (3, 6), (4, 6), (5, 6)]);
}

#[test]
fn get_blocks_of_o_piece() {
    let p = Tetromino::new(TetrominoType::O);
    let mut blocks = p.get_blocks();
    blocks.sort();
    assert_eq!(blocks, vec![(4, 1), (4, 2), (5, 1), (5, 2)]);
}
