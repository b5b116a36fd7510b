use tetris::block::{Block, BlockType, Color, Rotation, Square};
use tetris::configuration::Configuration;
use tetris::constants::{BOARD_COLUMNS, BOARD_ROWS, CELL};

fn configuration() -> Configuration {
    Configuration::new(false, 10, 21, 10)
}

fn black() -> Color {
    Color::new(0, 0, 0, 255)
}

const KINDS: [BlockType; 9] = [
    BlockType::I,
    BlockType::J,
    BlockType::L,
    BlockType::O,
    BlockType::S,
    BlockType::T,
    BlockType::Z,
    BlockType::Plus,
    BlockType::BigZ,
];

#[test]
fn block_validate_will_stop() {
    let mut block = Block::new(BlockType::Z, configuration());
    block.translate(0, 15 * CELL);

    let squares = vec![Square::new(15, 0, black())];

    assert!(block.will_collide(&squares, 0));
}

#[test]
fn block_validate_cannot_move_horizontally_left_border() {
    let mut block = Block::new(BlockType::Z, configuration());
    block.translate(0, 0);

    assert!(block.will_collide(&Vec::new(), -CELL));
}

#[test]
fn block_validate_cannot_move_horizontally_right_border() {
    let mut block = Block::new(BlockType::Z, configuration());
    block.translate(BOARD_COLUMNS * CELL, 0);

    assert!(block.will_collide(&Vec::new(), CELL));
}

#[test]
fn block_validate_cannot_move_horizontally_another_square() {
    let mut block = Block::new(BlockType::Z, configuration());
    block.translate(CELL, 15 * CELL);

    let squares = vec![Square::new(15, 0, black())];

    assert!(block.will_collide(&squares, -CELL));
}

#[test]
fn block_validate_rotation_z() {
    let mut block = Block::new(BlockType::Z, configuration());
    block.rotate();

    assert!(block.positions.iter().any(|p| *p == (0, 2)));
    assert!(block.positions.iter().any(|p| *p == (1, 1)));
    assert!(block.positions.iter().any(|p| *p == (2, 1)));
    assert!(block.positions.iter().any(|p| *p == (1, 2)));
}

#[test]
fn block_validate_rotation_j() {
    let mut block = Block::new(BlockType::J, configuration());
    block.rotate();

    assert!(block.positions.iter().any(|p| *p == (0, 0)));
    assert!(block.positions.iter().any(|p| *p == (1, 0)));
    assert!(block.positions.iter().any(|p| *p == (1, 1)));
    assert!(block.positions.iter().any(|p| *p == (1, 2)));
}

#[test]
fn rotation_z_gives_exactly_four_cells() {
    let mut block = Block::with_draw(BlockType::Z, configuration(), BlockType::Z, black());
    block.rotate();
    assert_eq!(block.positions, vec![(0, 2), (1, 2), (1, 1), (2, 1)]);
    assert_eq!(block.translate, (0, 0));
}

#[test]
fn shapes_of_all_kinds() {
    let shape = |kind: BlockType| kind.cells();
    assert_eq!(shape(BlockType::I), vec![(0, 0), (1, 0), (2, 0), (3, 0)]);
    assert_eq!(shape(BlockType::J), vec![(0, 1), (1, 1), (2, 1), (2, 0)]);
    assert_eq!(shape(BlockType::L), vec![(0, 0), (1, 0), (2, 0), (2, 1)]);
    assert_eq!(shape(BlockType::O), vec![(0, 0), (0, 1), (1, 0), (1, 1)]);
    assert_eq!(shape(BlockType::S), vec![(0, 1), (0, 2), (1, 0), (1, 1)]);
    assert_eq!(shape(BlockType::T), vec![(0, 0), (0, 1), (0, 2), (1, 1)]);
    assert_eq!(shape(BlockType::Z), vec![(0, 0), (0, 1), (1, 1), (1, 2)]);
    assert_eq!(shape(BlockType::Plus), vec![(0, 1), (1, 0), (1, 1), (1, 2), (2, 1)]);
    assert_eq!(shape(BlockType::BigZ), vec![(0, 0), (0, 1), (1, 1), (2, 1), (2, 2)]);
}

#[test]
fn kinds_by_index() {
    for (n, kind) in KINDS.iter().enumerate() {
        assert_eq!(BlockType::from_index(n as u32), *kind);
    }
    assert_eq!(BlockType::from_index(9), BlockType::I);
    assert_eq!(BlockType::from_index(u32::MAX), BlockType::I);
}

#[test]
fn extended_kinds_and_rotation_rules() {
    for kind in KINDS {
        let extended = kind == BlockType::Plus || kind == BlockType::BigZ;
        assert_eq!(kind.is_extended(), extended);
    }
    assert_eq!(BlockType::I.rotation(), Rotation::Transpose);
    assert_eq!(BlockType::O.rotation(), Rotation::Fixed);
    assert_eq!(BlockType::Plus.rotation(), Rotation::Fixed);
    for kind in [
        BlockType::J,
        BlockType::L,
        BlockType::S,
        BlockType::T,
        BlockType::Z,
        BlockType::BigZ,
    ] {
        assert_eq!(kind.rotation(), Rotation::Pivot);
    }
}

#[test]
fn new_block_starts_at_origin_with_bright_color() {
    for kind in KINDS {
        let block = Block::new(kind, configuration());
        assert_eq!(block.block_type, kind);
        assert_eq!(block.positions, kind.cells());
        assert_eq!(block.translate, (0, 0));
        let c = block.color;
        assert!(c.r >= 128 && c.g >= 128 && c.b >= 128 && c.a >= 128);
    }
}

#[test]
fn classic_mode_replaces_extended_kinds() {
    let classic = Configuration::new(true, 10, 21, 10);
    for _ in 0..50 {
        for kind in [BlockType::Plus, BlockType::BigZ] {
            let block = Block::new(kind, classic);
            assert!(!block.block_type.is_extended());
            assert_eq!(block.positions, block.block_type.cells());
        }
    }
    let block = Block::new(BlockType::T, classic);
    assert_eq!(block.block_type, BlockType::T);
}

#[test]
fn with_draw_takes_the_replacement_only_where_forbidden() {
    let classic = Configuration::new(true, 10, 21, 10);
    let block = Block::with_draw(BlockType::Plus, classic, BlockType::S, black());
    assert_eq!(block.block_type, BlockType::S);
    assert_eq!(block.positions, BlockType::S.cells());
    assert_eq!(block.color, black());
    let block = Block::with_draw(BlockType::Plus, configuration(), BlockType::S, black());
    assert_eq!(block.block_type, BlockType::Plus);
    let block = Block::with_draw(BlockType::L, classic, BlockType::S, black());
    assert_eq!(block.block_type, BlockType::L);
}

#[test]
fn translate_accumulates() {
    let mut block = Block::with_draw(BlockType::T, configuration(), BlockType::T, black());
    block.translate(3 * CELL, 112);
    block.translate(-CELL, 112);
    assert_eq!(block.translate, (2 * CELL, 224));
    assert_eq!(block.positions, BlockType::T.cells());
}

#[test]
fn four_rotations_restore_the_cells_of_every_kind() {
    for kind in KINDS {
        let mut block = Block::with_draw(kind, configuration(), kind, black());
        let at_first = block.positions.clone();
        for _ in 0..4 {
            block.rotate();
        }
        assert_eq!(block.positions, at_first);
    }
}

#[test]
fn symmetric_kinds_do_not_turn() {
    for kind in [BlockType::O, BlockType::Plus] {
        let mut block = Block::with_draw(kind, configuration(), kind, black());
        block.translate(2 * CELL, 3 * CELL);
        block.rotate();
        assert_eq!(block.positions, kind.cells());
        assert_eq!(block.translate, (2 * CELL, 3 * CELL));
    }
}

#[test]
fn pivoting_kinds_have_period_four() {
    for kind in [BlockType::J, BlockType::L, BlockType::S, BlockType::T, BlockType::Z] {
        let mut block = Block::with_draw(kind, configuration(), kind, black());
        let at_first = block.positions.clone();
        for turn in 1..4 {
            block.rotate();
            assert_ne!(block.positions, at_first, "{:?} after {} turns", kind, turn);
        }
        block.rotate();
        assert_eq!(block.positions, at_first);
        assert_eq!(block.translate, (0, 0));
    }
}

#[test]
fn rotating_i_shifts_the_piece() {
    let mut block = Block::with_draw(BlockType::I, configuration(), BlockType::I, black());
    block.translate(0, 5 * CELL);
    block.rotate();
    assert_eq!(block.positions, vec![(0, 0), (0, 1), (0, 2), (0, 3)]);
    assert_eq!(block.translate, (CELL, 4 * CELL));
    block.rotate();
    assert_eq!(block.positions, vec![(0, 0), (1, 0), (2, 0), (3, 0)]);
    assert_eq!(block.translate, (CELL, 5 * CELL));
    block.rotate();
    block.rotate();
    assert_eq!(block.positions, vec![(0, 0), (1, 0), (2, 0), (3, 0)]);
    assert_eq!(block.translate, (2 * CELL, 5 * CELL));
}

#[test]
fn rotation_is_pushed_back_from_the_right_edge() {
    let mut block = Block::with_draw(BlockType::I, configuration(), BlockType::I, black());
    block.translate(6 * CELL, 0);
    block.rotate();
    assert_eq!(block.translate, (7 * CELL, -CELL));
    block.rotate();
    // columns 7 to 10 would reach one cell past the edge
    assert_eq!(block.translate, (6 * CELL, 0));
    assert!(!block.will_collide(&Vec::new(), 0));
}

#[test]
fn rotation_push_is_the_largest_overshoot() {
    // T turned once has cells in columns 0 to 2
    let mut block = Block::with_draw(BlockType::T, configuration(), BlockType::T, black());
    block.translate(9 * CELL, 0);
    block.rotate();
    assert_eq!(block.positions, vec![(0, 2), (1, 2), (2, 2), (1, 1)]);
    assert_eq!(block.translate, (7 * CELL, 0));
    // half a cell past the edge is pushed back by half a cell
    let mut block = Block::with_draw(BlockType::T, configuration(), BlockType::T, black());
    block.translate(7 * CELL + 1050, 0);
    block.rotate();
    assert_eq!(block.translate, (7 * CELL, 0));
}

#[test]
fn rotation_does_not_guard_the_left_edge() {
    let mut block = Block::with_draw(BlockType::Z, configuration(), BlockType::Z, black());
    block.translate(-CELL, 0);
    block.rotate();
    assert_eq!(block.translate, (-CELL, 0));
    assert!(block.will_collide(&Vec::new(), 0));
}

#[test]
fn to_squares_rounds_to_the_nearest_cell() {
    let mut block = Block::with_draw(BlockType::O, configuration(), BlockType::O, black());
    block.translate(2 * CELL, 3 * CELL + 1049);
    let squares = block.to_squares();
    assert_eq!(
        squares,
        vec![
            Square::new(3, 2, black()),
            Square::new(4, 2, black()),
            Square::new(3, 3, black()),
            Square::new(4, 3, black()),
        ]
    );
    block.translate(0, 1);
    let rows: Vec<i64> = block.to_squares().iter().map(|s| s.row).collect();
    assert_eq!(rows, vec![4, 5, 4, 5]);
    // the piece is left as it was
    assert_eq!(block.translate, (2 * CELL, 3 * CELL + 1050));
    assert_eq!(block.positions, BlockType::O.cells());
}

#[test]
fn to_squares_rounds_halves_away_from_zero() {
    let mut block = Block::with_draw(BlockType::O, configuration(), BlockType::O, black());
    block.translate(-1050, -1049);
    let first = block.to_squares()[0];
    assert_eq!((first.row, first.column), (0, -1));
    block.translate(1, -1);
    let first = block.to_squares()[0];
    assert_eq!((first.row, first.column), (-1, 0));
    block.translate(0, -CELL);
    assert_eq!(block.to_squares()[0].row, -2);
}

#[test]
fn fresh_piece_is_free_on_an_empty_board() {
    for kind in KINDS {
        let block = Block::new(kind, configuration());
        assert!(!block.will_collide(&Vec::new(), 0), "{:?}", kind);
    }
}

#[test]
fn piece_on_the_last_row_lands_once_it_sinks() {
    for kind in KINDS {
        let mut block = Block::with_draw(kind, configuration(), kind, black());
        let lowest = block.positions.iter().map(|p| p.1).max().unwrap();
        block.translate(0, (BOARD_ROWS - 1 - lowest) * CELL);
        // standing exactly on the last row it has not yet landed
        assert!(!block.will_collide(&Vec::new(), 0), "{:?}", kind);
        block.translate(0, 1);
        assert!(block.will_collide(&Vec::new(), 0), "{:?}", kind);
        assert!(block.will_collide(&Vec::new(), CELL), "{:?}", kind);
        let rows: Vec<i64> = block.to_squares().iter().map(|s| s.row).collect();
        assert_eq!(*rows.iter().max().unwrap(), BOARD_ROWS - 1);
    }
}

#[test]
fn piece_lands_on_a_settled_cell_below() {
    let mut block = Block::with_draw(BlockType::O, configuration(), BlockType::O, black());
    block.translate(4 * CELL, 5 * CELL);
    // the piece fills rows 5 and 6; a cell in row 7 of one of its columns stops it
    assert!(block.will_collide(&vec![Square::new(7, 4, black())], 0));
    assert!(block.will_collide(&vec![Square::new(7, 5, black())], 0));
    assert!(!block.will_collide(&vec![Square::new(7, 6, black())], 0));
    assert!(!block.will_collide(&vec![Square::new(8, 4, black())], 0));
    // between two columns the piece rests on nothing
    block.translate(1, 0);
    assert!(!block.will_collide(&vec![Square::new(7, 4, black())], 0));
}

#[test]
fn sideways_test_uses_the_shifted_column_and_the_current_row() {
    let mut block = Block::with_draw(BlockType::O, configuration(), BlockType::O, black());
    block.translate(4 * CELL, 5 * CELL);
    let squares = vec![Square::new(5, 6, black())];
    assert!(!block.will_collide(&squares, 0));
    assert!(block.will_collide(&squares, CELL));
    assert!(!block.will_collide(&squares, -CELL));
    // at the edges
    let mut block = Block::with_draw(BlockType::O, configuration(), BlockType::O, black());
    assert!(block.will_collide(&Vec::new(), -1));
    block.translate(8 * CELL, 0);
    assert!(!block.will_collide(&Vec::new(), 0));
    assert!(block.will_collide(&Vec::new(), 1));
}

#[test]
fn duplicate_is_equal_and_independent() {
    let mut block = Block::with_draw(BlockType::L, configuration(), BlockType::L, black());
    block.translate(CELL, 2 * CELL);
    let mut copy = block.duplicate();
    assert_eq!(copy.positions, block.positions);
    assert_eq!(copy.translate, block.translate);
    assert_eq!(copy.block_type, block.block_type);
    assert_eq!(copy.color, block.color);
    copy.rotate();
    assert_eq!(block.positions, BlockType::L.cells());
}

#[test]
fn configuration_hands_back_its_values() {
    let c = Configuration::new(false, 12, 21, 7);
    assert!(!c.classic_mode());
    assert_eq!(c.viewing_area_rows_count(), 12);
    assert_eq!(c.default_speed(), 21);
    assert_eq!(c.lines_to_level_up(), 7);
    let c = Configuration::new(true, 12, 42, 7);
    assert!(c.classic_mode());
    assert_eq!(c.viewing_area_rows_count(), 19);
    assert_eq!(c.default_speed(), 42);
}
