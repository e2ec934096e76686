use rust_gomoku::board::{xy_to_move, Board};
use rust_gomoku::constants::{BLACK, WHITE};
use rust_gomoku::rules::{classify_forbidden_move, ForbiddenKind, RuleSet};
use rust_gomoku::threats::threat_board::ThreatBoardView;
use rust_gomoku::threats::vcf::{VCFResult, VCFSearcher, VCFM};

#[test]
fn renju_vcf_finds_win_through_four_whose_only_block_is_forbidden() {
    let mut board = Board::new();
    for (x, y, side) in [
        (3, 7, WHITE),
        (4, 7, WHITE),
        (5, 7, WHITE),
        (2, 7, BLACK),
        (6, 6, BLACK),
        (8, 6, BLACK),
        (6, 8, BLACK),
        (8, 8, BLACK),
    ] {
        board.set_grid_cell(x, y, side);
    }
    board.force_side_to_move(WHITE).unwrap();
    assert_eq!(
        classify_forbidden_move(&board, xy_to_move(7, 7).unwrap(), BLACK, RuleSet::Renju).unwrap(),
        ForbiddenKind::DoubleThree
    );

    let freestyle = VCFSearcher::default().search_with_multi_reply(&board, WHITE, 8, true);
    assert!(!freestyle.found, "freestyle: black blocks the four legally");

    let renju = VCFSearcher::default().search_with_multi_reply_for_rule(
        &board,
        WHITE,
        8,
        true,
        RuleSet::Renju,
    );
    assert!(
        renju.found,
        "renju: black's only block of the four is forbidden, white wins"
    );
    assert_eq!(renju.move_, Some(xy_to_move(6, 7).unwrap()));
}

#[test]
fn vcf_search_finds_immediate_four() {
    let mut board = Board::new();
    for x in [5, 6, 7, 8] {
        board.set_grid_cell(x, 7, BLACK);
    }
    board.set_grid_cell(4, 7, WHITE);
    let result = VCFSearcher::default().search(&board, BLACK, 4);
    assert!(result.found && result.solved);
    assert_eq!(result.move_, Some(xy_to_move(9, 7).unwrap()));
}

#[test]
fn vcf_search_reports_inconclusive_at_zero_depth() {
    let board = Board::new();
    let result = VCFSearcher::default().search(&board, BLACK, 0);
    assert_eq!(result, VCFResult { move_: None, found: false, solved: false });
}

#[test]
fn vcf_search_can_report_solved_negative() {
    let mut board = Board::new();
    board.set_grid_cell(7, 7, BLACK);
    let result = VCFSearcher::default().search(&board, BLACK, 4);
    assert!(!result.found);
    assert!(result.solved);
    assert_eq!(result.move_, None);
}

#[test]
fn vcf_sequence_key_is_order_invariant_within_side_lists() {
    let a = VCFSearcher::canonical_sequence_key(&[30, 10, 20], &[5, 1]);
    let b = VCFSearcher::canonical_sequence_key(&[20, 30, 10], &[1, 5]);
    assert_eq!(a, b);
    assert_eq!(a.0, vec![10, 20, 30]);
    assert_eq!(a.1, vec![1, 5]);
}

#[test]
fn vcf_begin_depth_is_capped_as_expected() {
    assert_eq!(VCFSearcher::normalize_begin_depth(8), VCFM);
    assert_eq!(VCFSearcher::normalize_begin_depth(7), VCFM - 1);
    assert_eq!(VCFSearcher::normalize_begin_depth(2), 2);
    assert_eq!(VCFSearcher::normalize_begin_depth(0), 0);
    assert_eq!(VCFSearcher::normalize_begin_depth(-3), -3);
}

#[test]
fn vcf_search_leaves_the_view_unchanged() {
    let mut board = Board::new();
    for x in [5, 6, 7] {
        board.set_grid_cell(x, 7, BLACK);
    }
    board.set_grid_cell(4, 7, WHITE);
    let mut view = ThreatBoardView::from_board(board.duplicate());
    let key = view.board.zobrist_key();
    let mut searcher = VCFSearcher::default();
    let _ = searcher.search_begin(&mut view, BLACK, 4);
    assert_eq!(view.board.zobrist_key(), key);
    assert_eq!(view.board.move_count(), 0);
}

#[test]
fn threat_board_view_reports_direct_b4_point_for_side() {
    let mut board = Board::new();
    for x in [4, 5, 7, 8] {
        board.set_grid_cell(x, 7, BLACK);
    }
    let view = ThreatBoardView::from_board(board.duplicate());
    let (point, ambiguous) = view.broken_four_point_for_side(BLACK);
    assert_eq!(point, Some(xy_to_move(6, 7).unwrap()));
    assert!(!ambiguous);
}
