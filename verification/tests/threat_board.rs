use rust_gomoku::board::{move_to_xy, xy_to_move, Board};
use rust_gomoku::constants::{BLACK, BOARD_SIZE, EMPTY, WHITE};
use rust_gomoku::patterns::line::{scan_a3, scan_a4, scan_a5, scan_a6, scan_b4, scan_b4p, Line};
use rust_gomoku::rules::RuleSet;
use rust_gomoku::threats::threat_board::{
    broken_four_reply, forcing_threat_moves, forcing_threat_moves_for_rule, has_open_four,
    has_vct_trigger, has_vct_trigger_for_rule, threat_moves, winning_threat_moves, ThreatBoardView,
};
use rust_gomoku::threats::types::ThreatLevel;

fn xorshift(state: &mut u64) -> u64 {
    *state ^= *state << 13;
    *state ^= *state >> 7;
    *state ^= *state << 17;
    *state
}

// The view reads lines with the same scans as the pattern `Line`; the padded
// line of a row must give the same answers through both.
#[test]
fn threat_line_matches_pattern_line_on_random_lines() {
    let mut state = 0x0bad_c0de_1337_beef_u64;
    for _ in 0..30_000 {
        let mut values = [0_i32; BOARD_SIZE];
        for value in values.iter_mut() {
            *value = match xorshift(&mut state) % 3 {
                0 => 0,
                1 => i32::from(BLACK),
                _ => i32::from(WHITE),
            };
        }
        let mut threat_cells = [1024_i32; BOARD_SIZE + 4];
        threat_cells[2..2 + BOARD_SIZE].copy_from_slice(&values);
        let mut cells = vec![1024_i32; BOARD_SIZE + 4];
        cells[2..2 + BOARD_SIZE].copy_from_slice(&values);
        let pattern_line = Line { cells };

        for pi in 0..BOARD_SIZE {
            assert_eq!(scan_a3(&threat_cells, pi), pattern_line.a3(pi), "a3 @ {pi}: {values:?}");
            assert_eq!(scan_a4(&threat_cells, pi), pattern_line.a4(pi), "a4 @ {pi}: {values:?}");
            assert_eq!(scan_a5(&threat_cells, pi), pattern_line.a5(pi), "a5 @ {pi}: {values:?}");
            assert_eq!(scan_a6(&threat_cells, pi), pattern_line.a6(pi), "a6 @ {pi}: {values:?}");
            assert_eq!(scan_b4(&threat_cells, pi), pattern_line.b4(pi), "b4 @ {pi}: {values:?}");
            assert_eq!(scan_b4p(&threat_cells, pi), pattern_line.b4p(pi), "b4p @ {pi}: {values:?}");
        }
    }
}

#[test]
fn broken_four_replies_are_real_five_completions() {
    let mut state = 0x1234_5678_9abc_def0_u64;
    for _ in 0..4000 {
        let mut board = Board::new();
        let n = 6 + (xorshift(&mut state) % 12) as usize;
        for _ in 0..n {
            let x = (xorshift(&mut state) % BOARD_SIZE as u64) as usize;
            let y = (xorshift(&mut state) % BOARD_SIZE as u64) as usize;
            if board.cell_value(x, y) == EMPTY {
                let side = if xorshift(&mut state) % 5 == 0 { WHITE } else { BLACK };
                board.set_grid_cell(x, y, side);
            }
        }
        let view = ThreatBoardView::from_board(board.duplicate());
        for x in 0..BOARD_SIZE {
            for y in 0..BOARD_SIZE {
                if board.cell_value(x, y) != BLACK {
                    continue;
                }
                let replies = view.broken_four_legal_replies_for_side(x, y, BLACK);
                for &r in replies.as_slice() {
                    let (rx, ry) = move_to_xy(r).expect("reply stays valid");
                    let mut probe = ThreatBoardView::from_board(board.duplicate());
                    probe.play(r, BLACK);
                    assert!(
                        probe.has_a5(rx, ry),
                        "reply ({rx},{ry}) for stone ({x},{y}) does not complete five"
                    );
                }
            }
        }
    }
}

#[test]
fn b4p_does_not_report_incomplete_jump_four_second_five() {
    let mut board = Board::new();
    for x in [3, 4, 5, 7, 9, 10] {
        board.set_grid_cell(x, 7, BLACK);
    }
    let view = ThreatBoardView::from_board(board.duplicate());
    let replies = view.broken_four_legal_replies_for_side(7, 7, BLACK);
    for &r in replies.as_slice() {
        let (rx, ry) = move_to_xy(r).expect("reply stays valid");
        let mut probe = ThreatBoardView::from_board(board.duplicate());
        probe.play(r, BLACK);
        assert!(
            probe.has_a5(rx, ry),
            "spurious reply ({rx},{ry}); replies={:?}",
            replies.as_slice()
        );
    }
}

fn fake_black_four_board() -> Board {
    let mut board = Board::new();
    for (x, y, side) in [
        (3, 7, BLACK),
        (4, 7, BLACK),
        (5, 7, BLACK),
        (6, 7, BLACK),
        (8, 7, BLACK),
        (2, 7, WHITE),
    ] {
        board.set_grid_cell(x, y, side);
    }
    board
}

#[test]
fn renju_fake_black_four_is_not_a_forcing_threat() {
    let board = fake_black_four_board();
    let attack = xy_to_move(9, 7).expect("attack stays valid");

    let freestyle = forcing_threat_moves_for_rule(&board, BLACK, RuleSet::Freestyle);
    assert!(
        freestyle.contains(&attack),
        "freestyle: the raw four 5,6,_,8,9 is forcing"
    );

    let renju = forcing_threat_moves_for_rule(&board, BLACK, RuleSet::Renju);
    assert!(
        renju.is_empty(),
        "renju: the only five point (7,7) is an overline, nothing is forcing: {renju:?}"
    );
}

#[test]
fn renju_fake_black_four_does_not_trigger_vct() {
    let board = fake_black_four_board();

    assert!(
        has_vct_trigger_for_rule(&board, BLACK, RuleSet::Freestyle),
        "freestyle: completing at (7,7) wins outright, the trigger must fire"
    );
    assert!(
        !has_vct_trigger_for_rule(&board, BLACK, RuleSet::Renju),
        "renju: black has no real four or dual three, the trigger must stay off"
    );
}

#[test]
fn threat_moves_use_expected_offsets_and_scan_order() {
    let mut board = Board::new();
    board.set_grid_cell(7, 7, BLACK);
    let moves = threat_moves(&board, BLACK);
    // Two cells away or adjacent along the four lines: 16 points, column by column.
    assert_eq!(moves.len(), 16);
    let mut expected = Vec::new();
    for x in 0..15usize {
        for y in 0..15usize {
            let dx = x as i32 - 7;
            let dy = y as i32 - 7;
            let on_line = dx == 0 || dy == 0 || dx.abs() == dy.abs();
            let d = dx.abs().max(dy.abs());
            if on_line && (d == 1 || d == 2) {
                expected.push(xy_to_move(x, y).unwrap());
            }
        }
    }
    assert_eq!(moves, expected);
    assert!(threat_moves(&board, WHITE).is_empty());
}

#[test]
fn winning_and_forcing_threat_moves_on_open_three() {
    let mut board = Board::new();
    for x in [5, 6, 7] {
        board.set_grid_cell(x, 7, BLACK);
    }
    let wins = winning_threat_moves(&board, BLACK);
    assert!(wins.contains(&xy_to_move(4, 7).unwrap()));
    assert!(wins.contains(&xy_to_move(8, 7).unwrap()));
    let forcing = forcing_threat_moves(&board, BLACK);
    assert!(forcing.contains(&xy_to_move(4, 7).unwrap()));
    assert!(has_vct_trigger(&board, BLACK));
}

#[test]
fn open_four_and_broken_four_reply_helpers() {
    let mut board = Board::new();
    for x in [4, 5, 6, 7] {
        board.set_grid_cell(x, 7, BLACK);
    }
    assert!(has_open_four(&board, 5, 7));
    let mut broken = Board::new();
    for x in [4, 5, 7, 8] {
        broken.set_grid_cell(x, 7, BLACK);
    }
    assert!(!has_open_four(&broken, 5, 7));
    assert_eq!(broken_four_reply(&broken, 5, 7), Some(xy_to_move(6, 7).unwrap()));
}

#[test]
fn view_play_and_undo_restore_the_board() {
    let mut board = Board::new();
    board.set_grid_cell(7, 7, BLACK);
    board.set_grid_cell(8, 7, BLACK);
    let mut view = ThreatBoardView::from_board(board.duplicate());
    let key = view.board.zobrist_key();
    let m = xy_to_move(9, 7).unwrap();
    view.play(m, WHITE);
    assert_eq!(view.board.cell_value(9, 7), WHITE);
    view.undo();
    assert_eq!(view.board.cell_value(9, 7), EMPTY);
    assert_eq!(view.board.zobrist_key(), key);
    assert_eq!(view.board.side_to_move(), board.side_to_move());
}

#[test]
fn collect_attack_moves_puts_strongest_levels_first() {
    let mut board = Board::new();
    for x in [5, 6, 7] {
        board.set_grid_cell(x, 7, BLACK);
    }
    let mut view = ThreatBoardView::from_board(board.duplicate());
    let attacks = view.collect_attack_moves(BLACK);
    assert!(!attacks.is_empty());
    for pair in attacks.windows(2) {
        assert!(pair[0].level.rank() >= pair[1].level.rank());
    }
    assert_eq!(attacks[0].level, ThreatLevel::A4);
    assert_eq!(view.board.zobrist_key(), board.zobrist_key());
}

#[test]
fn nested_a3r_count_restores_threat_board_view_state() {
    let mut board = Board::new();
    for (x, y) in [(6, 7), (7, 7), (8, 7), (7, 6), (7, 8)] {
        board.set_grid_cell(x, y, BLACK);
    }
    let mut view = ThreatBoardView::from_board(board.duplicate());
    let outer = xy_to_move(9, 9).unwrap();
    view.play(outer, WHITE);
    let key = view.board.zobrist_key();
    let side = view.board.side_to_move();
    let count = view.a3r_count(7, 7);
    assert!(count >= 2);
    assert!(view.is_double3r(7, 7));
    assert_eq!(view.board.zobrist_key(), key);
    assert_eq!(view.board.side_to_move(), side);
    view.undo();
    assert_eq!(view.board.zobrist_key(), board.zobrist_key());
    assert_eq!(view.board.cell_value(9, 9), EMPTY);
}
