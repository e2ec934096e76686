use rust_gomoku::board::{move_to_xy, xy_to_move, Board};
use rust_gomoku::config::default_runtime_options;
use rust_gomoku::search::root_window::root_allowed_moves;

#[test]
fn root_allowed_moves_use_dynamic_board_margin_when_enabled() {
    let mut board = Board::new();
    board.play(xy_to_move(7, 7).unwrap(), None).unwrap();
    board.play(xy_to_move(8, 7).unwrap(), None).unwrap();
    board.play(xy_to_move(7, 8).unwrap(), None).unwrap();
    let mut runtime = default_runtime_options(false);
    runtime.static_board = false;
    runtime.dynamic_board_margin = 1;
    let allowed = root_allowed_moves(&board, &runtime).unwrap();
    assert!(allowed.contains(&xy_to_move(6, 6).unwrap()));
    assert!(!allowed.contains(&xy_to_move(0, 0).unwrap()));
}

#[test]
fn root_allowed_moves_expand_to_square_window_like_current_engine() {
    let mut board = Board::new();
    board.play(xy_to_move(7, 7).unwrap(), None).unwrap();
    board.play(xy_to_move(7, 8).unwrap(), None).unwrap();
    board.play(xy_to_move(7, 9).unwrap(), None).unwrap();
    board.play(xy_to_move(10, 9).unwrap(), None).unwrap();
    let mut runtime = default_runtime_options(false);
    runtime.static_board = false;
    runtime.dynamic_board_margin = 1;
    let allowed = root_allowed_moves(&board, &runtime).unwrap();
    let xs: Vec<_> = allowed
        .iter()
        .map(|&move_| move_to_xy(move_).unwrap().0)
        .collect();
    let ys: Vec<_> = allowed
        .iter()
        .map(|&move_| move_to_xy(move_).unwrap().1)
        .collect();
    assert_eq!(
        xs.iter().max().unwrap() - xs.iter().min().unwrap(),
        ys.iter().max().unwrap() - ys.iter().min().unwrap()
    );
}
