use rust_gomoku::board::{xy_to_move, Board};
use rust_gomoku::constants::{BLACK, WHITE};
use rust_gomoku::rules::RuleSet;

fn double_three_board_black_to_move() -> Board {
    let mut board = Board::new();
    for (x, y, side) in [
        (6, 7, BLACK),
        (0, 0, WHITE),
        (8, 7, BLACK),
        (0, 1, WHITE),
        (7, 6, BLACK),
        (0, 2, WHITE),
        (7, 8, BLACK),
        (0, 3, WHITE),
    ] {
        board.play(xy_to_move(x, y).unwrap(), Some(side)).unwrap();
    }
    assert_eq!(board.side_to_move(), BLACK);
    board
}

#[test]
fn rule_aware_legal_move_keeps_freestyle_default_and_filters_renju_black() {
    let board = double_three_board_black_to_move();
    let forbidden = xy_to_move(7, 7).unwrap();

    assert!(board.is_legal_move(forbidden));
    assert!(board.is_legal_move_for_rule(forbidden, BLACK, RuleSet::Freestyle));
    assert!(!board.is_legal_move_for_rule(forbidden, BLACK, RuleSet::Renju));
    assert!(board.is_legal_move_for_rule(forbidden, WHITE, RuleSet::Renju));
}
