use rust_gomoku::board::{move_to_xy, xy_to_move, Board, BoardError};
use rust_gomoku::constants::{BLACK, EMPTY, WHITE};
use rust_gomoku::rules::RuleSet;
use rust_gomoku::types::Side;

fn place_line(board: &mut Board, y: usize, xs: std::ops::Range<usize>, side: Side) {
    for x in xs {
        board.set_grid_cell(x, y, side);
    }
}

#[test]
fn renju_black_exact_five_wins() {
    let mut board = Board::new();
    place_line(&mut board, 7, 3..7, BLACK);

    board
        .play_for_rule(xy_to_move(7, 7).unwrap(), None, RuleSet::Renju)
        .unwrap();

    assert_eq!(board.winner(), BLACK);
}

#[test]
fn renju_black_overline_is_illegal_not_win() {
    let mut board = Board::new();
    place_line(&mut board, 7, 3..8, BLACK);

    let move_ = xy_to_move(8, 7).unwrap();
    assert_eq!(
        board.play_for_rule(move_, None, RuleSet::Renju),
        Err(BoardError::IllegalMove(move_))
    );
    assert_eq!(board.at(8, 7), Ok(EMPTY));
    assert_eq!(board.winner(), EMPTY);
}

#[test]
fn renju_white_overline_wins() {
    let mut board = Board::with_side_to_move(WHITE).unwrap();
    place_line(&mut board, 7, 3..8, WHITE);

    board
        .play_for_rule(xy_to_move(8, 7).unwrap(), None, RuleSet::Renju)
        .unwrap();

    assert_eq!(board.winner(), WHITE);
}

#[test]
fn freestyle_black_overline_still_wins() {
    let mut board = Board::new();
    place_line(&mut board, 7, 3..8, BLACK);

    board
        .play_for_rule(xy_to_move(8, 7).unwrap(), None, RuleSet::Freestyle)
        .unwrap();

    assert_eq!(board.winner(), BLACK);
}

#[test]
fn assumed_rule_legal_play_skips_forbidden_check_but_keeps_renju_winner_semantics() {
    let mut board = Board::new();
    place_line(&mut board, 7, 3..8, BLACK);

    board
        .play_assuming_rule_legal(xy_to_move(8, 7).unwrap(), None, RuleSet::Renju)
        .unwrap();

    assert_eq!(board.at(8, 7), Ok(BLACK));
    assert_eq!(board.winner(), EMPTY);
}

#[test]
fn every_coordinate_round_trips() {
    for x in 0..15 {
        for y in 0..15 {
            let m = xy_to_move(x, y).unwrap();
            assert_eq!(move_to_xy(m), Ok((x, y)));
        }
    }
    assert_eq!(xy_to_move(15, 0), Err(BoardError::CoordinatesOutOfRange { x: 15, y: 0 }));
    assert_eq!(move_to_xy(225), Err(BoardError::MoveOutOfRange(225)));
}

#[test]
fn undo_restores_key_turn_and_count() {
    let mut board = Board::new();
    let key0 = board.zobrist_key();
    let played = board.play(xy_to_move(7, 7).unwrap(), None).unwrap();
    assert_eq!(played.side, BLACK);
    assert_eq!(board.side_to_move(), WHITE);
    assert_eq!(board.move_count(), 1);
    assert_ne!(board.zobrist_key(), key0);
    let undone = board.undo().unwrap();
    assert_eq!(undone, played);
    assert_eq!(board.zobrist_key(), key0);
    assert_eq!(board.move_count(), 0);
    assert_eq!(board.side_to_move(), BLACK);
    assert_eq!(board.undo(), Err(BoardError::EmptyHistory));
}

#[test]
fn play_rejects_occupied_point_and_wrong_side() {
    let mut board = Board::new();
    let m = xy_to_move(7, 7).unwrap();
    board.play(m, None).unwrap();
    assert_eq!(board.play(m, None), Err(BoardError::IllegalMove(m)));
    assert_eq!(
        board.play(xy_to_move(8, 8).unwrap(), Some(BLACK)),
        Err(BoardError::WrongSideToMove { expected: WHITE, got: BLACK })
    );
}
