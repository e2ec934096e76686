use rust_gomoku::board::{xy_to_move, Board};
use rust_gomoku::constants::{BLACK, WHITE};
use rust_gomoku::threats::types::{AttackMove, ThreatLevel};
use rust_gomoku::threats::vct::{attack_signature, VCTResult, VCTSearcher};

#[test]
fn vct_open_four_is_not_instant_win_when_defender_answers_with_five() {
    let mut board = Board::new();
    for (x, y, side) in [
        (6, 7, BLACK),
        (7, 7, BLACK),
        (8, 7, BLACK),
        (1, 1, WHITE),
        (2, 2, WHITE),
        (3, 3, WHITE),
        (4, 4, WHITE),
    ] {
        board.set_grid_cell(x, y, side);
    }

    let result = VCTSearcher::default().search(&board, BLACK, 4);
    assert!(
        !result.found,
        "black's open four loses to white's immediate five"
    );
}

#[test]
fn vct_four_attack_is_not_refuted_by_defender_counter_open_four() {
    let mut board = Board::new();
    for (x, y, side) in [
        (5, 7, BLACK),
        (6, 7, BLACK),
        (7, 7, BLACK),
        (8, 5, BLACK),
        (8, 6, BLACK),
        (4, 7, WHITE),
        (1, 1, WHITE),
        (2, 2, WHITE),
        (3, 3, WHITE),
    ] {
        board.set_grid_cell(x, y, side);
    }

    let result = VCTSearcher::default().search(&board, BLACK, 4);
    assert!(
        result.found,
        "the forcing four -> open four chain is a real VCT"
    );
    assert_eq!(result.move_, Some(xy_to_move(8, 7).unwrap()));
}

#[test]
fn and_memo_context_diagnostic_detects_same_key_different_attack() {
    let mut searcher = VCTSearcher::default();
    searcher.memo_diagnostics_enabled = true;
    let first = AttackMove {
        move_: 10,
        level: ThreatLevel::B4,
        defenses: vec![11],
    };
    let second = AttackMove {
        move_: 12,
        level: ThreatLevel::A3,
        defenses: vec![13, 14],
    };

    searcher.observe_and_memo_context(1, 3, 1234, &first);
    searcher.observe_and_memo_context(1, 3, 1234, &second);

    assert_eq!(searcher.stats.and_memo_context_observations, 2);
    assert_eq!(searcher.stats.and_memo_context_collisions, 1);
    assert_eq!(searcher.stats.and_memo_context_collision_keys, 1);
    assert_eq!(searcher.stats.and_memo_context_collision_samples.len(), 1);
}

#[test]
fn and_memo_context_diagnostic_detects_shallow_key_reuse_risk() {
    let mut searcher = VCTSearcher::default();
    searcher.memo_diagnostics_enabled = true;
    let shallow = AttackMove {
        move_: 10,
        level: ThreatLevel::B4,
        defenses: vec![11],
    };
    let deeper = AttackMove {
        move_: 10,
        level: ThreatLevel::B4,
        defenses: vec![11, 12],
    };

    searcher.observe_and_memo_context(1, 2, 5678, &shallow);
    searcher.observe_and_memo_context(1, 4, 5678, &deeper);

    assert_eq!(searcher.stats.and_memo_context_observations, 2);
    assert_eq!(searcher.stats.and_memo_context_collisions, 1);
    assert_eq!(searcher.stats.and_memo_context_collision_keys, 1);
    assert_eq!(
        searcher.stats.and_memo_context_collision_samples[0].observed_depth,
        2
    );
    assert_eq!(
        searcher.stats.and_memo_context_collision_samples[0].current_depth,
        4
    );
}

#[test]
fn vct_returns_not_found_on_depth_zero() {
    let board = Board::new();
    let result = VCTSearcher::default().search(&board, BLACK, 0);
    assert_eq!(result, VCTResult { move_: None, found: false, solved: false });
}

#[test]
fn vct_returns_solved_on_terminal_board() {
    let mut board = Board::new();
    for x in [3, 4, 5, 6] {
        board.set_grid_cell(x, 7, BLACK);
    }
    board.play(xy_to_move(7, 7).unwrap(), None).unwrap();
    assert_eq!(board.winner(), BLACK);
    let result = VCTSearcher::default().search(&board, WHITE, 3);
    assert_eq!(result, VCTResult { move_: None, found: false, solved: true });
}

#[test]
fn vct_stats_record_the_depth_limit_and_iterations() {
    let mut board = Board::new();
    board.set_grid_cell(7, 7, BLACK);
    let mut searcher = VCTSearcher::default();
    let _ = searcher.search(&board, BLACK, 2);
    assert_eq!(searcher.stats.depth_limit, 2);
    assert!(!searcher.stats.depth_stats.is_empty());
    assert!(searcher.stats.or_nodes > 0);
}

#[test]
fn attack_signature_is_the_fnv_style_hash_of_the_attack() {
    let attack = AttackMove { move_: 10, level: ThreatLevel::B4, defenses: vec![11] };
    let mut hash = 0xcbf2_9ce4_8422_2325_u64;
    for value in [10u64, 2, 1, 11] {
        hash ^= value;
        hash = hash.wrapping_mul(0x0000_0100_0000_01b3);
    }
    assert_eq!(attack_signature(&attack), hash);
}
