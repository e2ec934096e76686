use rust_gomoku::constants::{BLACK, EMPTY};
use rust_gomoku::referee::{judge, RefereeRequest};

fn request(moves: &[[usize; 2]], candidate: [usize; 2], side: i8) -> RefereeRequest {
    RefereeRequest {
        moves: moves.to_vec(),
        candidate,
        side,
    }
}

#[test]
fn black_exact_five_wins_but_overline_loses() {
    let exact_five = judge(request(
        &[
            [3, 7],
            [0, 0],
            [4, 7],
            [0, 1],
            [5, 7],
            [0, 2],
            [6, 7],
            [0, 3],
        ],
        [7, 7],
        BLACK,
    ));
    assert!(exact_five.legal);
    assert_eq!(exact_five.winner, BLACK);

    let overline = judge(request(
        &[
            [2, 7],
            [0, 0],
            [3, 7],
            [0, 1],
            [4, 7],
            [0, 2],
            [6, 7],
            [0, 3],
            [7, 7],
            [0, 4],
        ],
        [5, 7],
        BLACK,
    ));
    assert!(!overline.legal);
    assert_eq!(overline.forbidden_kind, Some("overline"));
    assert_eq!(overline.winner, -BLACK);
}

#[test]
fn cross_double_three_is_illegal_and_white_overline_wins() {
    let double_three = judge(request(
        &[
            [6, 7],
            [0, 0],
            [8, 7],
            [0, 1],
            [7, 6],
            [0, 2],
            [7, 8],
            [0, 3],
        ],
        [7, 7],
        BLACK,
    ));
    assert!(!double_three.legal);
    assert_eq!(double_three.forbidden_kind, Some("double_three"));

    let white_overline = judge(request(
        &[
            [0, 0],
            [2, 7],
            [0, 1],
            [3, 7],
            [0, 2],
            [4, 7],
            [0, 3],
            [6, 7],
            [1, 0],
            [7, 7],
            [1, 1],
        ],
        [5, 7],
        -BLACK,
    ));
    assert!(white_overline.legal);
    assert_eq!(white_overline.winner, -BLACK);
}

#[test]
fn referee_reports_why_it_cannot_judge() {
    let off_board = judge(request(&[[7, 7], [15, 0]], [1, 1], BLACK));
    assert_eq!(off_board.error.unwrap(), "prefix move 2 is out of bounds");
    assert!(!off_board.legal);
    assert_eq!(off_board.winner, EMPTY);

    let occupied = judge(request(&[[7, 7], [7, 7]], [1, 1], BLACK));
    assert_eq!(occupied.error.unwrap(), "prefix move 2 is illegal: IllegalMove(112)");

    let out_of_turn = judge(request(&[[7, 7]], [1, 1], BLACK));
    assert_eq!(out_of_turn.error.unwrap(), "candidate side does not match alternating order");

    let candidate_off = judge(request(&[], [3, 15], BLACK));
    assert_eq!(candidate_off.error.unwrap(), "candidate is out of bounds");

    let candidate_on_stone = judge(request(&[[7, 7]], [7, 7], -BLACK));
    assert_eq!(candidate_on_stone.error.unwrap(), "candidate is occupied or invalid");

    let opening = judge(request(&[], [7, 7], BLACK));
    assert!(opening.legal);
    assert_eq!(opening.forbidden_kind, Some("none"));
    assert_eq!(opening.winner, EMPTY);
    assert_eq!(opening.error, None);
}

#[test]
fn referee_refuses_a_move_after_the_game_is_won() {
    let after_win = judge(request(
        &[
            [3, 7],
            [0, 0],
            [4, 7],
            [0, 1],
            [5, 7],
            [0, 2],
            [6, 7],
            [0, 3],
            [7, 7],
        ],
        [9, 9],
        -BLACK,
    ));
    assert!(!after_win.legal);
    assert_eq!(after_win.error.unwrap(), "candidate play failed: IllegalMove(144)");
}
