use rust_gomoku::board::{xy_to_move, Board};
use rust_gomoku::rules::RuleSet;
use rust_gomoku::threats::threat_board::ThreatBoardView;
use rust_gomoku::types::{Move, Side};

/// The 16 `THREAT_DIRS` offsets, duplicated here as an independent reference so
/// the incremental-adjacency `threat_moves` can be checked against a
/// full-board rescan.
const REF_DIRS: [(isize, isize); 16] = [
    (-2, -2),
    (-1, -1),
    (2, 2),
    (1, 1),
    (-2, 2),
    (-1, 1),
    (2, -2),
    (1, -1),
    (2, 0),
    (1, 0),
    (0, 2),
    (0, 1),
    (-2, 0),
    (-1, 0),
    (0, -2),
    (0, -1),
];

/// Reference implementation of `threat_moves`: for every empty point, in the
/// same `for x { for y }` order, emit it (once) if any `REF_DIRS` neighbor holds
/// a `side` stone and the point is rule-legal for `side`.
fn reference_threat_moves(view: &ThreatBoardView, side: Side) -> Vec<Move> {
    let board = &view.board;
    let rule = view.rule_set();
    let size = 15usize;
    let mut out = Vec::new();
    for x in 0..size {
        for y in 0..size {
            if board.at(x, y).unwrap() != 0 {
                continue;
            }
            for (dx, dy) in REF_DIRS {
                let xx = x as isize + dx;
                let yy = y as isize + dy;
                if xx >= 0
                    && yy >= 0
                    && (xx as usize) < size
                    && (yy as usize) < size
                    && board.at(xx as usize, yy as usize).unwrap() == side
                {
                    let m = xy_to_move(x, y).unwrap();
                    if board.is_legal_move_for_rule(m, side, rule) {
                        out.push(m);
                    }
                    break;
                }
            }
        }
    }
    out
}

fn assert_threat_moves_match(view: &ThreatBoardView, tag: &str) {
    for side in [1i8, -1i8] {
        let got = view.threat_moves(side);
        let want = reference_threat_moves(view, side);
        assert_eq!(
            got, want,
            "threat_moves mismatch vs reference ({tag}, side {side})"
        );
    }
}

/// Random play/undo walk asserting the incremental adjacency stays exactly in
/// sync with the full-rescan reference after every mutation, under both rules.
#[test]
fn threat_moves_incremental_matches_full_rescan() {
    for rule in [RuleSet::Freestyle, RuleSet::Renju] {
        let mut state = 0x9e3779b97f4a7c15u64 ^ (rule as u64).wrapping_mul(0xd1b54a32d192ed03);
        let mut rng = || {
            state ^= state << 13;
            state ^= state >> 7;
            state ^= state << 17;
            state
        };
        let mut view = ThreatBoardView::from_board_with_rule(Board::new(), rule);
        let mut stack: Vec<Move> = Vec::new();
        assert_threat_moves_match(&view, "empty");

        for _ in 0..4000 {
            let play = stack.is_empty() || (stack.len() < 60 && rng() % 100 < 70);
            if play {
                let side: Side = if stack.len() % 2 == 0 { 1 } else { -1 };
                // Collect legal empty points for this side, pick one at random.
                let mut legal = Vec::new();
                for x in 0..15usize {
                    for y in 0..15usize {
                        if view.board.at(x, y).unwrap() == 0 {
                            let m = xy_to_move(x, y).unwrap();
                            if view.board.is_legal_move_for_rule(m, side, rule) {
                                legal.push(m);
                            }
                        }
                    }
                }
                if legal.is_empty() {
                    // No legal move (e.g. all forbidden); undo instead.
                    if stack.pop().is_some() {
                        view.undo();
                        assert_threat_moves_match(&view, "undo");
                    }
                    continue;
                }
                let m = legal[(rng() as usize) % legal.len()];
                view.play(m, side);
                stack.push(m);
                assert_threat_moves_match(&view, "play");
            } else {
                stack.pop();
                view.undo();
                assert_threat_moves_match(&view, "undo");
            }
        }
    }
}

