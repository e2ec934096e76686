use rust_gomoku::board::{xy_to_move, Board};
use rust_gomoku::constants::{BLACK, BOARD_SIZE};
use rust_gomoku::patterns::line::{line_backend_name, Line};
use rust_gomoku::patterns::shapes::{
    PackedShape, ShapeLabel, DIAGONAL_DOWN, DIAGONAL_UP, DIRECTION_IDS, HORIZONTAL, VERTICAL,
};

#[test]
fn shape_labels_match_expected_values() {
    assert_eq!(ShapeLabel::L0 as i32, 0);
    assert_eq!(ShapeLabel::L4S as i32, 10);
    assert_eq!(ShapeLabel::L5 as i32, 12);
    assert_eq!(ShapeLabel::L6 as i32, 13);
}

#[test]
fn direction_ids_match_expected_order() {
    assert_eq!(
        DIRECTION_IDS,
        (HORIZONTAL, VERTICAL, DIAGONAL_DOWN, DIAGONAL_UP)
    );
}

#[test]
fn packed_shape_decodes_label_and_aux() {
    let shape = PackedShape {
        raw: (((ShapeLabel::L4S as i32) & 0xF) << 16) | 3,
    };
    assert_eq!(shape.label(), ShapeLabel::L4S);
    assert_eq!(shape.aux(), 3);
}

#[test]
fn line_extraction_direction_zero() {
    let mut board = Board::new();
    board.play(xy_to_move(7, 7).unwrap(), None).unwrap();
    board.play(xy_to_move(7, 8).unwrap(), None).unwrap();
    let line = Line::from_board(&board, 7, HORIZONTAL).unwrap();
    assert_eq!(line.cells[2 + 7], BLACK as i32);
    assert_eq!(line.cells[2 + 8], rust_gomoku::constants::WHITE as i32);
}

#[test]
fn line_backend_name_is_supported() {
    assert!(matches!(line_backend_name(), "python" | "cython"));
}

#[test]
fn line_a3pb_returns_expected_encoded_targets() {
    let mut board = Board::new();
    board.play(xy_to_move(7, 7).unwrap(), None).unwrap();
    board.play(xy_to_move(0, 0).unwrap(), None).unwrap();
    board.play(xy_to_move(8, 7).unwrap(), None).unwrap();
    board.play(xy_to_move(0, 1).unwrap(), None).unwrap();
    board.play(xy_to_move(10, 7).unwrap(), None).unwrap();
    let line = Line::from_board(&board, 7, VERTICAL).unwrap();
    let encoded = line.a3pb(8);
    assert!(encoded > 0);
    assert_eq!(encoded & 0xFF, 11);
    assert_eq!((encoded >> 8) & 0xFF, 6);
    assert_eq!((encoded >> 16) & 0xFF, 9);
}

#[test]
fn board_size_stays_reference_aligned() {
    assert_eq!(BOARD_SIZE, 15);
}
