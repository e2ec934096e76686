use rust_gomoku::board::{xy_to_move, Board};
use rust_gomoku::search::movegen::{covered_moves, CoverageTracker, CoveredMovesBuf};

#[test]
fn coverage_tracker_matches_covered_moves_after_play_and_undo() {
    let mut board = Board::new();
    let mut tracker = CoverageTracker::from_board(&board);
    let mut buf = CoveredMovesBuf::default();
    tracker.collect_moves(&board, &mut buf);
    assert_eq!(buf.as_slice(), covered_moves(&board).as_slice());

    for (x, y) in [(7, 7), (8, 7), (7, 8), (8, 8), (6, 7)] {
        let move_ = xy_to_move(x, y).unwrap();
        board.play(move_, None).unwrap();
        tracker.add_move(move_);
        tracker.collect_moves(&board, &mut buf);
        assert_eq!(buf.as_slice(), covered_moves(&board).as_slice());
    }

    while let Some(played) = board.undo().ok() {
        tracker.remove_move(played.move_);
        tracker.collect_moves(&board, &mut buf);
        assert_eq!(buf.as_slice(), covered_moves(&board).as_slice());
    }
}

#[test]
fn covered_moves_is_the_centre_on_an_empty_board() {
    assert_eq!(covered_moves(&Board::new()), vec![112]);
}

#[test]
fn covered_moves_of_one_corner_stone() {
    let mut board = Board::new();
    board.play(xy_to_move(0, 0).unwrap(), None).unwrap();
    let moves = covered_moves(&board);
    // Within two steps: the 3x3 corner block less the stone (8), plus the
    // three-step points (3,0), (0,3) and (3,3).
    let mut expected = Vec::new();
    for y in 0..4usize {
        for x in 0..4usize {
            let near = (x.max(y) >= 1 && x.max(y) <= 2) || (x.max(y) == 3 && (x == 0 || y == 0 || x == y));
            if near {
                expected.push(xy_to_move(x, y).unwrap());
            }
        }
    }
    expected.sort();
    assert_eq!(moves, expected);
    assert_eq!(moves.len(), 11);
}
