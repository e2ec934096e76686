use rust_gomoku::board::{xy_to_move, Board};
use rust_gomoku::search::movegen::{covered_moves, movegen_backend_name};
use rust_gomoku::search::ordering::{getmi, ordering_backend_name};

#[test]
fn movegen_backend_name_is_supported() {
    assert!(matches!(movegen_backend_name(), "python" | "cython"));
}

#[test]
fn covered_moves_uses_expected_template() {
    let mut board = Board::new();
    board.play(xy_to_move(7, 7).unwrap(), None).unwrap();
    let moves = covered_moves(&board);
    assert_eq!(moves.len(), 32);
    assert!(moves.contains(&xy_to_move(7, 4).unwrap()));
    assert!(moves.contains(&xy_to_move(4, 4).unwrap()));
    assert!(!moves.contains(&xy_to_move(5, 4).unwrap()));
}

#[test]
fn covered_moves_returns_center_on_empty_board() {
    let board = Board::new();
    let moves = covered_moves(&board);
    assert_eq!(moves, vec![xy_to_move(7, 7).unwrap()]);
}

#[test]
fn ordering_backend_name_is_supported() {
    assert!(matches!(ordering_backend_name(), "python" | "cython"));
}

#[test]
fn getmi_matches_reference_blocking_pattern() {
    let mut board = Board::new();
    let sequence = [
        (1, (6, 7)),
        (-1, (9, 7)),
        (1, (7, 8)),
        (-1, (7, 5)),
        (1, (6, 6)),
        (-1, (8, 8)),
        (1, (6, 8)),
        (-1, (5, 9)),
    ];
    for (side, (x, y)) in sequence {
        board.play(xy_to_move(x, y).unwrap(), Some(side)).unwrap();
    }
    assert_eq!(getmi(&board, 7, 7, 1), 20);
}
