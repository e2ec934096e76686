use rust_gomoku::board::{xy_to_move, Board};
use rust_gomoku::constants::{BLACK, INF, WHITE};
use rust_gomoku::eval::caches::EvalCaches;
use rust_gomoku::search::alphabeta::{compute_corner_state, rootbonus, terminal_score, SearchStats};
use rust_gomoku::search::ordering::getmi;
use rust_gomoku::search::root::{fallback_ai_move, new_classic_fallback_rng, ClassicFallbackRng, CLASSIC_RAND_SEED};

#[test]
fn rootbonus_prefers_low_height_moves() {
    let mut board = Board::new();
    board.play(xy_to_move(7, 7).unwrap(), None).unwrap();
    board.play(xy_to_move(8, 8).unwrap(), None).unwrap();
    assert!(rootbonus(&board, 1, 1, true) > rootbonus(&board, 7, 7, false));
}

#[test]
fn rootbonus_corner_mode_still_rewards_near_edge_moves() {
    let mut board = Board::new();
    board.play(xy_to_move(0, 0).unwrap(), None).unwrap();
    board.play(xy_to_move(14, 14).unwrap(), None).unwrap();
    assert!(rootbonus(&board, 1, 1, true) > 0);
}

#[test]
fn rootbonus_exact_values() {
    let mut board = Board::new();
    assert_eq!(rootbonus(&board, 0, 5, false), 8);
    assert_eq!(rootbonus(&board, 1, 5, false), 4);
    assert_eq!(rootbonus(&board, 2, 5, false), 2);
    assert_eq!(rootbonus(&board, 3, 5, false), 1);
    assert_eq!(rootbonus(&board, 7, 7, false), 0);
    // Corner (0, 0): height 0 gives 4; the square holds no stone but touches
    // two edges: 3 + 3 - 1 = 5, and 0.7 * 3 rounds to 2.
    assert_eq!(rootbonus(&board, 0, 0, true), 6);
    // Edge point (0, 7): count 3, and 0.7 * 1 rounds to 1.
    assert_eq!(rootbonus(&board, 0, 7, true), 5);
    board.play(xy_to_move(1, 7).unwrap(), None).unwrap();
    board.play(xy_to_move(1, 8).unwrap(), None).unwrap();
    // Two stones plus the edge: count 5, and 0.7 * 3 rounds to 2.
    assert_eq!(rootbonus(&board, 0, 7, true), 6);
    board.play(xy_to_move(0, 6).unwrap(), None).unwrap();
    board.play(xy_to_move(1, 6).unwrap(), None).unwrap();
    // Count 7: 0.7 * 5 = 3.5 rounds to 4.
    assert_eq!(rootbonus(&board, 0, 7, true), 8);
    assert_eq!(rootbonus(&board, 7, 7, true), 0);
}

#[test]
fn compute_corner_state_matches_expected_half_corner_cases() {
    let mut board = Board::new();
    assert_eq!(compute_corner_state(&board), (false, 0));
    board.play(xy_to_move(2, 7).unwrap(), None).unwrap();
    board.play(xy_to_move(7, 2).unwrap(), None).unwrap();
    assert_eq!(compute_corner_state(&board), (true, 2));
    let mut edge = Board::new();
    edge.play(xy_to_move(7, 7).unwrap(), None).unwrap();
    edge.play(xy_to_move(1, 9).unwrap(), None).unwrap();
    assert_eq!(compute_corner_state(&edge), (true, 0));
}

#[test]
fn terminal_score_uses_side_relative_inf_values() {
    let mut board = Board::new();
    let sequence = [
        (3, 7, 1),
        (0, 0, -1),
        (4, 7, 1),
        (1, 0, -1),
        (5, 7, 1),
        (2, 0, -1),
        (6, 7, 1),
        (3, 0, -1),
        (7, 7, 1),
    ];
    for (x, y, side) in sequence {
        board.play(xy_to_move(x, y).unwrap(), Some(side)).unwrap();
    }
    assert_eq!(terminal_score(&board, 1, 2), Some(INF - 2));
    assert_eq!(terminal_score(&board, -1, 2), Some(-INF + 2));
    assert_eq!(terminal_score(&Board::new(), 1, 2), None);
}

#[test]
fn getmi_counts_free_cells_in_eight_directions() {
    let mut board = Board::new();
    // In the open centre every direction runs four cells: 1 + 8 * 4.
    assert_eq!(getmi(&board, 7, 7, BLACK), 33);
    // In a corner only three directions exist.
    assert_eq!(getmi(&board, 0, 0, BLACK), 13);
    board.set_grid_cell(9, 7, WHITE);
    // An opponent stone two to the right cuts that run to one cell.
    assert_eq!(getmi(&board, 7, 7, BLACK), 30);
    // Own stones do not block.
    assert_eq!(getmi(&board, 7, 7, WHITE), 33);
}

#[test]
fn classic_fallback_rng_draws_the_classic_sequence() {
    assert!(ClassicFallbackRng::new(42).is_err());
    let mut rng = ClassicFallbackRng::new(CLASSIC_RAND_SEED).unwrap();
    assert!(rng.randrange(0).is_err());
    assert_eq!(rng.randrange(10), Ok(9));
    assert_eq!(rng.randrange(10), Ok(0));
    assert_eq!(rng.randrange(10), Ok(8));
    assert_eq!(rng.randrange(1_000_000_000_000), Ok(2_125_001_483));
    let mut fresh = new_classic_fallback_rng();
    assert_eq!(fresh.randrange(7), Ok(4));
}

#[test]
fn fallback_prefers_the_point_with_the_strongest_shape() {
    let mut board = Board::new();
    board.play(xy_to_move(7, 7).unwrap(), None).unwrap();
    board.play(xy_to_move(0, 0).unwrap(), None).unwrap();
    let mut caches = EvalCaches::new();
    // A five shape (label 12) for white (player 1) at (3, 4).
    caches.set_shape_value(1, 3, 4, 0, 12 << 16);
    let mut rng = new_classic_fallback_rng();
    let m = fallback_ai_move(&board, &caches, WHITE, &mut rng).unwrap();
    assert_eq!(m, xy_to_move(3, 4).unwrap());
    // With every score equal the draw picks among all legal points.
    let empty = EvalCaches::new();
    let mut rng = new_classic_fallback_rng();
    let m = fallback_ai_move(&board, &empty, BLACK, &mut rng).unwrap();
    let legal: Vec<u16> = (0u16..225).filter(|&m| board.is_legal_move(m)).collect();
    assert_eq!(m, legal[1_329_450_609 % legal.len()]);
}

#[test]
fn search_stats_default_values() {
    let stats = SearchStats::default();
    assert_eq!(stats.nodes, 0);
    assert_eq!(stats.time_check_mask, 0xFF);
    assert!(stats.deadline.is_none());
    assert!(stats.cancel.is_none());
    assert!(stats.root_candidates.is_empty());
}
