use rust_gomoku::board::Board;
use rust_gomoku::constants::{BLACK, EMPTY, WHITE};
use rust_gomoku::eval::caches::EvalCaches;
use rust_gomoku::eval::local::{
    add_empty_bucket_contribution, add_occupied_move, attack_level, dirty_cells_for_change,
    local_backend_name, mark_cell_neighbors, mark_dirty_cell, merge_changed_player,
    remove_empty_bucket_contribution, remove_occupied_move, update_occupied_transition, DirtyCells,
    DIRTY_DD, DIRTY_DU, DIRTY_H, DIRTY_V,
};
use rust_gomoku::rules::RuleSet;

fn empty_grid() -> [i8; 225] {
    [EMPTY; 225]
}

fn set(grid: &mut [i8; 225], x: usize, y: usize, side: i8) {
    grid[y * 15 + x] = side;
}

#[test]
fn local_backend_is_named() {
    assert_eq!(local_backend_name(), "python");
}

#[test]
fn marking_a_point_twice_lists_it_once_and_ors_flags() {
    let mut marks = DirtyCells::new();
    mark_dirty_cell(&mut marks, 3, 4, DIRTY_H);
    mark_dirty_cell(&mut marks, 3, 4, DIRTY_DU);
    mark_dirty_cell(&mut marks, 0, 0, DIRTY_V);
    assert_eq!(marks.len, 2);
    assert_eq!(marks.marked(0), 4 * 15 + 3);
    assert_eq!(marks.marked(1), 0);
    assert_eq!(marks.flags_at(3, 4), DIRTY_H | DIRTY_DU);
    assert_eq!(marks.flags_at(0, 0), DIRTY_V);
    assert_eq!(marks.flags_at(1, 1), 0);
}

#[test]
fn neighbours_on_an_empty_board_reach_radius_in_all_rays() {
    let grid = empty_grid();
    let mut marks = DirtyCells::new();
    mark_cell_neighbors(&mut marks, &grid, 7, 7, 15, 4);
    assert_eq!(marks.len, 32);
    // Vertical rays carry the first flag, horizontal rays the second.
    assert_eq!(marks.flags_at(7, 11), DIRTY_H);
    assert_eq!(marks.flags_at(7, 3), DIRTY_H);
    assert_eq!(marks.flags_at(7, 12), 0);
    assert_eq!(marks.flags_at(11, 7), DIRTY_V);
    assert_eq!(marks.flags_at(3, 7), DIRTY_V);
    assert_eq!(marks.flags_at(6, 8), DIRTY_DD);
    assert_eq!(marks.flags_at(8, 6), DIRTY_DD);
    assert_eq!(marks.flags_at(8, 8), DIRTY_DU);
    assert_eq!(marks.flags_at(3, 3), DIRTY_DU);
    assert_eq!(marks.flags_at(7, 7), 0);
    assert_eq!(marks.flags_at(8, 9), 0);
}

#[test]
fn neighbours_stop_at_the_board_edge() {
    let grid = empty_grid();
    let mut marks = DirtyCells::new();
    mark_cell_neighbors(&mut marks, &grid, 0, 0, 15, 5);
    // Only the three rays into the board: 5 points each.
    assert_eq!(marks.len, 15);
    assert_eq!(marks.flags_at(0, 5), DIRTY_H);
    assert_eq!(marks.flags_at(5, 0), DIRTY_V);
    assert_eq!(marks.flags_at(5, 5), DIRTY_DU);
}

#[test]
fn a_ray_stops_before_the_first_stone_of_the_other_colour() {
    let mut grid = empty_grid();
    set(&mut grid, 9, 7, BLACK);
    set(&mut grid, 10, 7, BLACK);
    set(&mut grid, 11, 7, WHITE);
    let mut marks = DirtyCells::new();
    mark_cell_neighbors(&mut marks, &grid, 7, 7, 15, 5);
    assert_eq!(marks.flags_at(8, 7), DIRTY_V);
    assert_eq!(marks.flags_at(9, 7), DIRTY_V);
    assert_eq!(marks.flags_at(10, 7), DIRTY_V);
    assert_eq!(marks.flags_at(11, 7), 0);
    assert_eq!(marks.flags_at(12, 7), 0);
    // The other direction of the same line is not blocked.
    assert_eq!(marks.flags_at(2, 7), DIRTY_V);
}

#[test]
fn a_first_stone_of_either_colour_sets_the_ray_colour() {
    let mut grid = empty_grid();
    set(&mut grid, 7, 8, WHITE);
    set(&mut grid, 7, 9, EMPTY);
    set(&mut grid, 7, 10, WHITE);
    set(&mut grid, 7, 11, BLACK);
    let mut marks = DirtyCells::new();
    mark_cell_neighbors(&mut marks, &grid, 7, 7, 15, 5);
    assert_eq!(marks.flags_at(7, 8), DIRTY_H);
    assert_eq!(marks.flags_at(7, 10), DIRTY_H);
    assert_eq!(marks.flags_at(7, 11), 0);
}

#[test]
fn dirty_cells_for_change_marks_the_point_in_all_directions() {
    let grid = empty_grid();
    let renju = dirty_cells_for_change(&grid, 7, 7, RuleSet::Renju);
    assert_eq!(renju.marked(0), 7 * 15 + 7);
    assert_eq!(renju.flags_at(7, 7), 15);
    assert_eq!(renju.len, 41);
    assert_eq!(renju.flags_at(7, 12), DIRTY_H);
    let freestyle = dirty_cells_for_change(&grid, 7, 7, RuleSet::Freestyle);
    assert_eq!(freestyle.len, 33);
    assert_eq!(freestyle.flags_at(7, 12), 0);
}

#[test]
fn occupied_list_add_and_remove() {
    let mut caches = EvalCaches::new();
    add_occupied_move(&mut caches, 10);
    add_occupied_move(&mut caches, 20);
    add_occupied_move(&mut caches, 30);
    remove_occupied_move(&mut caches, 10);
    assert_eq!(caches.occupied_len, 2);
    assert_eq!(&caches.occupied_moves[..2], &[30, 20]);
    remove_occupied_move(&mut caches, 20);
    assert_eq!(&caches.occupied_moves[..1], &[30]);
    remove_occupied_move(&mut caches, 99);
    assert_eq!(caches.occupied_len, 1);
    remove_occupied_move(&mut caches, 30);
    assert_eq!(caches.occupied_len, 0);
    remove_occupied_move(&mut caches, 30);
    assert_eq!(caches.occupied_len, 0);
}

#[test]
fn occupied_transition_follows_the_cell_change() {
    let mut caches = EvalCaches::new();
    update_occupied_transition(&mut caches, 2, 3, EMPTY, BLACK);
    assert_eq!(caches.occupied_len, 1);
    assert_eq!(caches.occupied_moves[0], 3 * 15 + 2);
    update_occupied_transition(&mut caches, 2, 3, BLACK, WHITE);
    assert_eq!(caches.occupied_len, 1);
    update_occupied_transition(&mut caches, 2, 3, WHITE, EMPTY);
    assert_eq!(caches.occupied_len, 0);
}

#[test]
fn bucket_contributions_follow_emptiness() {
    let mut caches = EvalCaches::new();
    caches.value_cache[0][4][5] = 7;
    caches.value_cache[1][4][5] = 9;
    let mut board = Board::new();
    add_empty_bucket_contribution(&board, &mut caches, 4, 5);
    assert_eq!(caches.empty_bucket_counts[0][7], 1);
    assert_eq!(caches.empty_bucket_counts[1][9], 1);
    remove_empty_bucket_contribution(&mut caches, 4, 5);
    assert_eq!(caches.empty_bucket_counts[0][7], 0);
    assert_eq!(caches.empty_bucket_counts[1][9], 0);
    board.set_grid_cell(4, 5, BLACK);
    add_empty_bucket_contribution(&board, &mut caches, 4, 5);
    assert_eq!(caches.empty_bucket_counts[0][7], 0);
    caches.board_shadow[4][5] = BLACK;
    caches.empty_bucket_counts[0][7] = 3;
    remove_empty_bucket_contribution(&mut caches, 4, 5);
    assert_eq!(caches.empty_bucket_counts[0][7], 3);
}

#[test]
fn attack_level_reads_the_side_cache() {
    let mut caches = EvalCaches::new();
    caches.attack_cache[0][1][2] = 4;
    caches.attack_cache[1][1][2] = 6;
    assert_eq!(attack_level(&caches, 1, 2, BLACK), 4);
    assert_eq!(attack_level(&caches, 1, 2, WHITE), 6);
}

#[test]
fn merged_players_accumulate() {
    let mut acc = [false, true];
    merge_changed_player(&mut acc, [true, false]);
    assert_eq!(acc, [true, true]);
}
