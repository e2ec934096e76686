use std::collections::HashSet;

use rust_gomoku::board::{xy_to_move, Board};
use rust_gomoku::config::default_runtime_options;
use rust_gomoku::constants::{BLACK, EMPTY, WHITE};
use rust_gomoku::search::root_filter::{apply_opponent_vcf_filter, verify_root_vct_move};
use rust_gomoku::search::root_window::root_allowed_moves;
use rust_gomoku::threats::vcf::VCFSearcher;

fn mv(x: usize, y: usize) -> u16 {
    xy_to_move(x, y).unwrap()
}

#[test]
fn root_window_is_none_for_static_or_empty_boards() {
    let mut runtime = default_runtime_options(false);
    let board = Board::new();
    assert!(root_allowed_moves(&board, &runtime).is_none());
    let mut played = Board::new();
    played.play(mv(7, 7), Some(BLACK)).unwrap();
    runtime.static_board = true;
    assert!(root_allowed_moves(&played, &runtime).is_none());
}

#[test]
fn root_window_around_a_single_stone() {
    let mut runtime = default_runtime_options(false);
    runtime.static_board = false;
    runtime.dynamic_board_margin = 4;
    let mut board = Board::new();
    board.play(mv(7, 7), Some(BLACK)).unwrap();
    let allowed = root_allowed_moves(&board, &runtime).unwrap();
    assert_eq!(allowed.len(), 80);
    assert!(allowed.contains(&mv(3, 3)));
    assert!(allowed.contains(&mv(11, 11)));
    assert!(!allowed.contains(&mv(7, 7)));
    assert!(!allowed.contains(&mv(2, 7)));
    assert!(!allowed.contains(&mv(7, 12)));
}

#[test]
fn root_window_grows_the_short_side_past_the_edge() {
    let mut runtime = default_runtime_options(false);
    runtime.static_board = false;
    runtime.dynamic_board_margin = 1;
    let mut board = Board::new();
    board.play(mv(0, 0), Some(BLACK)).unwrap();
    board.play(mv(4, 1), Some(WHITE)).unwrap();
    let allowed = root_allowed_moves(&board, &runtime).unwrap();
    // Columns 0..=5, rows 0..=5: the rows grow downwards only, the top being
    // the board edge.
    assert_eq!(allowed.len(), 34);
    assert!(allowed.contains(&mv(5, 5)));
    assert!(!allowed.contains(&mv(6, 0)));
    assert!(!allowed.contains(&mv(0, 6)));
}

#[test]
fn root_window_alternates_ends_when_both_have_room() {
    let mut runtime = default_runtime_options(false);
    runtime.static_board = false;
    runtime.dynamic_board_margin = 0;
    let mut board = Board::new();
    board.play(mv(5, 7), Some(BLACK)).unwrap();
    board.play(mv(8, 7), Some(WHITE)).unwrap();
    let allowed = root_allowed_moves(&board, &runtime).unwrap();
    // Columns 5..=8; the single row 7 grows to rows 5..=8: up, down, up.
    let expected: HashSet<u16> = (5..=8)
        .flat_map(|y| (5..=8).map(move |x| (x, y)))
        .filter(|&(x, y)| !((x == 5 || x == 8) && y == 7))
        .map(|(x, y)| mv(x, y))
        .collect();
    assert_eq!(allowed, expected);
}

#[test]
fn root_window_with_a_negative_margin_is_empty() {
    let mut runtime = default_runtime_options(false);
    runtime.static_board = false;
    runtime.dynamic_board_margin = -1;
    let mut board = Board::new();
    board.play(mv(7, 7), Some(BLACK)).unwrap();
    let allowed = root_allowed_moves(&board, &runtime).unwrap();
    assert!(allowed.is_empty());
}

#[test]
fn root_window_is_none_when_no_stone_is_left() {
    let mut runtime = default_runtime_options(false);
    runtime.static_board = false;
    let mut board = Board::new();
    board.play(mv(7, 7), Some(BLACK)).unwrap();
    board.set_grid_cell(7, 7, EMPTY);
    assert!(root_allowed_moves(&board, &runtime).is_none());
}

fn white_four_on_row_five() -> Board {
    let mut board = Board::new();
    for x in 0..4 {
        board.set_grid_cell(x, 5, WHITE);
    }
    board
}

#[test]
fn root_vct_move_checks() {
    let mut vcf = VCFSearcher::default();
    let mut board = Board::new();
    board.play(mv(7, 7), Some(BLACK)).unwrap();
    assert_eq!(
        verify_root_vct_move(&mut vcf, true, &board, WHITE, mv(7, 7)),
        (false, Some("illegal"))
    );

    let mut winning = Board::new();
    for x in 3..7 {
        winning.set_grid_cell(x, 9, BLACK);
    }
    assert_eq!(verify_root_vct_move(&mut vcf, true, &winning, BLACK, mv(7, 9)), (true, None));

    let threatened = white_four_on_row_five();
    assert_eq!(
        verify_root_vct_move(&mut vcf, true, &threatened, BLACK, mv(10, 10)),
        (false, Some("opponent_forcing"))
    );

    let quiet = Board::new();
    assert_eq!(verify_root_vct_move(&mut vcf, false, &quiet, BLACK, mv(7, 7)), (true, None));
}

#[test]
fn opponent_vcf_filter_keeps_input_without_a_threat() {
    let mut vcf = VCFSearcher::default();
    let board = Board::new();
    let allowed: HashSet<u16> = [mv(7, 7), mv(8, 8)].into_iter().collect();
    assert_eq!(
        apply_opponent_vcf_filter(&mut vcf, false, &board, BLACK, Some(allowed.clone())),
        Some(allowed.clone())
    );
    assert_eq!(
        apply_opponent_vcf_filter(&mut vcf, true, &board, BLACK, Some(allowed.clone())),
        Some(allowed)
    );
    assert_eq!(apply_opponent_vcf_filter(&mut vcf, true, &board, BLACK, None), None);
}

#[test]
fn opponent_vcf_filter_keeps_only_the_block() {
    let mut vcf = VCFSearcher::default();
    let board = white_four_on_row_five();
    let filtered = apply_opponent_vcf_filter(&mut vcf, true, &board, BLACK, None).unwrap();
    let expected: HashSet<u16> = [mv(4, 5)].into_iter().collect();
    assert_eq!(filtered, expected);

    let allowed: HashSet<u16> = [mv(9, 9), mv(4, 5), mv(0, 5)].into_iter().collect();
    let filtered = apply_opponent_vcf_filter(&mut vcf, true, &board, BLACK, Some(allowed)).unwrap();
    assert_eq!(filtered, expected);
}

#[test]
fn root_vct_verification_rejects_opponent_counter() {
    let mut board = Board::new();
    let sequence = [
        (5, 7, 1),
        (10, 5, -1),
        (6, 7, 1),
        (11, 5, -1),
        (7, 7, 1),
        (12, 5, -1),
        (0, 1, 1),
        (13, 5, -1),
        (0, 2, 1),
        (4, 7, -1),
    ];
    for (x, y, side) in sequence {
        board.play(xy_to_move(x, y).unwrap(), Some(side)).unwrap();
    }
    let mut vcf = VCFSearcher::default();
    let runtime = default_runtime_options(false);
    let (accepted, reason) = verify_root_vct_move(
        &mut vcf,
        runtime.compute_vcf,
        &board,
        board.side_to_move(),
        xy_to_move(2, 14).unwrap(),
    );
    assert!(!accepted);
    assert!(matches!(reason, Some("opponent_forcing" | "opponent_vcf")));
}
