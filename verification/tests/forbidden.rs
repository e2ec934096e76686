use rust_gomoku::board::{xy_to_move, Board, BoardError};
use rust_gomoku::constants::{BLACK, EMPTY, WHITE};
use rust_gomoku::rules::{
    classify_forbidden_move, classify_forbidden_stones, count_four_shapes_through, has_exact_five,
    has_overline, ForbiddenKind, RuleSet,
};
use rust_gomoku::types::Side;

const SIZE: usize = 15;

#[test]
fn freestyle_and_white_moves_are_never_forbidden() {
    let mut board = Board::new();
    board.set_grid_cell(4, 7, BLACK);
    board.set_grid_cell(5, 7, BLACK);
    board.set_grid_cell(6, 7, BLACK);
    board.set_grid_cell(8, 7, BLACK);
    board.set_grid_cell(9, 7, BLACK);
    let move_ = xy_to_move(7, 7).unwrap();

    assert_eq!(
        classify_forbidden_move(&board, move_, BLACK, RuleSet::Freestyle).unwrap(),
        ForbiddenKind::NotForbidden
    );
    assert_eq!(
        classify_forbidden_move(&board, move_, WHITE, RuleSet::Renju).unwrap(),
        ForbiddenKind::NotForbidden
    );
}

#[test]
fn invalid_side_is_rejected() {
    let board = Board::new();
    let move_ = xy_to_move(7, 7).unwrap();
    assert_eq!(
        classify_forbidden_move(&board, move_, 2, RuleSet::Renju),
        Err(BoardError::InvalidSide(2))
    );
    assert_eq!(
        classify_forbidden_stones(&[], (7, 7), 2, RuleSet::Renju),
        Err(BoardError::InvalidSide(2))
    );
}

#[test]
fn renju_overline_point_is_forbidden_for_black() {
    let mut board = Board::new();
    for x in [3, 4, 5, 6, 8] {
        board.set_grid_cell(x, 7, BLACK);
    }
    let move_ = xy_to_move(7, 7).unwrap();
    assert_eq!(
        classify_forbidden_move(&board, move_, BLACK, RuleSet::Renju).unwrap(),
        ForbiddenKind::Overline
    );
    assert!(!board.is_legal_move_for_rule(move_, BLACK, RuleSet::Renju));
    assert!(board.is_legal_move_for_rule(move_, BLACK, RuleSet::Freestyle));
}

#[test]
fn renju_double_three_point_is_forbidden_for_black() {
    let stones = [(6, 6, BLACK), (8, 6, BLACK), (6, 8, BLACK), (8, 8, BLACK)];
    assert_eq!(
        classify_forbidden_stones(&stones, (7, 7), BLACK, RuleSet::Renju),
        Ok(ForbiddenKind::DoubleThree)
    );
}

const EXHAUSTION_DIRS: [(isize, isize); 4] = [(1, 0), (0, 1), (1, 1), (1, -1)];

fn line_grid_along(line: &[Side; SIZE], dir: (isize, isize)) -> [Side; 225] {
    let center = (SIZE / 2) as isize;
    let (dx, dy) = dir;
    let mut grid = [EMPTY; 225];
    for (position, &side) in line.iter().enumerate() {
        if side == EMPTY {
            continue;
        }
        let offset = position as isize - center;
        let x = center + offset * dx;
        let y = center + offset * dy;
        grid[y as usize * SIZE + x as usize] = side;
    }
    grid
}

fn enumerated_line(width: usize, mut code: usize) -> [Side; SIZE] {
    assert!(width % 2 == 1);
    let center = SIZE / 2;
    let half_width = width / 2;
    let mut line = [EMPTY; SIZE];
    line[center] = BLACK;
    for position in (center - half_width)..=(center + half_width) {
        if position == center {
            continue;
        }
        line[position] = match code % 3 {
            0 => EMPTY,
            1 => BLACK,
            _ => WHITE,
        };
        code /= 3;
    }
    line
}

fn slow_center_run_len(line: &[Side; SIZE]) -> usize {
    let center = SIZE / 2;
    let mut start = center;
    while start > 0 && line[start - 1] == BLACK {
        start -= 1;
    }
    let mut end = center;
    while end + 1 < SIZE && line[end + 1] == BLACK {
        end += 1;
    }
    end - start + 1
}

fn slow_four_shape_count(line: &[Side; SIZE]) -> usize {
    let center = SIZE / 2;
    let mut shapes = std::collections::BTreeSet::new();
    for start in 0..=(SIZE - 5) {
        let end = start + 5;
        if !(start <= center && center < end) {
            continue;
        }
        let mut black_count = 0;
        let mut empty = None;
        let mut black_shape = [usize::MAX; 4];
        let mut valid_window = true;
        for (shape_index, &side) in line[start..end].iter().enumerate() {
            let position = start + shape_index;
            match side {
                BLACK => {
                    if black_count < 4 {
                        black_shape[black_count] = position;
                    }
                    black_count += 1;
                }
                EMPTY => {
                    if empty.replace(position).is_some() {
                        valid_window = false;
                        break;
                    }
                }
                _ => {
                    valid_window = false;
                    break;
                }
            }
        }
        if !valid_window || black_count != 4 || empty.is_none() {
            continue;
        }
        let left_is_open = start == 0 || line[start - 1] != BLACK;
        let right_is_open = end == SIZE || line[end] != BLACK;
        if left_is_open && right_is_open {
            shapes.insert(black_shape);
        }
    }
    shapes.len()
}

fn assert_line_exhaustion_matches_slow_reference(width: usize) {
    let center = SIZE / 2;
    let cases = 3usize.pow((width - 1) as u32);
    for code in 0..cases {
        let line = enumerated_line(width, code);
        let expected_exact_five = slow_center_run_len(&line) == 5;
        let expected_overline = slow_center_run_len(&line) >= 6;
        let expected_four = slow_four_shape_count(&line);
        for (dir_index, dir) in EXHAUSTION_DIRS.iter().enumerate() {
            let grid = line_grid_along(&line, *dir);
            assert_eq!(
                has_exact_five(&grid, center, center),
                expected_exact_five,
                "width={width} code={code} dir={dir:?} line={line:?} exact-five mismatch"
            );
            assert_eq!(
                has_overline(&grid, center, center),
                expected_overline,
                "width={width} code={code} dir={dir:?} line={line:?} overline mismatch"
            );
            assert_eq!(
                count_four_shapes_through(&grid, center, center, dir_index),
                expected_four,
                "width={width} code={code} dir={dir:?} line={line:?} four-count mismatch"
            );
        }
    }
}

#[test]
fn line_exhaustion_width_9_matches_slow_reference() {
    assert_line_exhaustion_matches_slow_reference(9);
}

#[test]
fn line_exhaustion_width_11_matches_slow_reference() {
    assert_line_exhaustion_matches_slow_reference(11);
}

#[test]
fn rule_set_names_parse_case_insensitively() {
    assert_eq!("RENJU".parse::<RuleSet>(), Ok(RuleSet::Renju));
    assert_eq!("4".parse::<RuleSet>(), Ok(RuleSet::Renju));
    assert_eq!("Free".parse::<RuleSet>(), Ok(RuleSet::Freestyle));
    assert_eq!("0".parse::<RuleSet>(), Ok(RuleSet::Freestyle));
    assert_eq!(
        "gomoku".parse::<RuleSet>(),
        Err("unknown rule set: gomoku".to_string())
    );
    assert_eq!(RuleSet::Renju.as_str(), "renju");
}
