//! The square window of the board that the root search may play in: the
//! bounding box of the stones, widened by a margin and grown to a square.
use vstd::prelude::*;

use std::collections::HashSet;

use crate::board::Board;
use crate::config::RuntimeOptions;
use crate::constants::{BOARD_AREA, BOARD_SIZE, EMPTY};
use crate::types::{Move, Side};

verus! {

broadcast use vstd::std_specs::hash::group_hash_axioms;

/// Smallest column holding a stone among the first `n` cells (15 if none).
pub open spec fn stones_min_x(cells: Seq<Side>, n: int) -> int
    decreases n,
{
    if n <= 0 {
        15
    } else {
        let r = stones_min_x(cells, n - 1);
        if cells[n - 1] != EMPTY && (n - 1) % 15 < r {
            (n - 1) % 15
        } else {
            r
        }
    }
}

/// Largest column holding a stone among the first `n` cells (-1 if none).
pub open spec fn stones_max_x(cells: Seq<Side>, n: int) -> int
    decreases n,
{
    if n <= 0 {
        -1
    } else {
        let r = stones_max_x(cells, n - 1);
        if cells[n - 1] != EMPTY && (n - 1) % 15 > r {
            (n - 1) % 15
        } else {
            r
        }
    }
}

/// Smallest row holding a stone among the first `n` cells (15 if none).
pub open spec fn stones_min_y(cells: Seq<Side>, n: int) -> int
    decreases n,
{
    if n <= 0 {
        15
    } else {
        let r = stones_min_y(cells, n - 1);
        if cells[n - 1] != EMPTY && (n - 1) / 15 < r {
            (n - 1) / 15
        } else {
            r
        }
    }
}

/// Largest row holding a stone among the first `n` cells (-1 if none).
pub open spec fn stones_max_y(cells: Seq<Side>, n: int) -> int
    decreases n,
{
    if n <= 0 {
        -1
    } else {
        let r = stones_max_y(cells, n - 1);
        if cells[n - 1] != EMPTY && (n - 1) / 15 > r {
            (n - 1) / 15
        } else {
            r
        }
    }
}

pub open spec fn imax(a: int, b: int) -> int {
    if a >= b {
        a
    } else {
        b
    }
}

pub open spec fn imin(a: int, b: int) -> int {
    if a <= b {
        a
    } else {
        b
    }
}

/// How far the low end of the range `lo..=hi` moves when the range grows by
/// `t` points, one at a time, alternating low end first and high end next;
/// an end that reached the board edge passes its turn to the other end.
pub open spec fn low_growth(lo: int, hi: int, t: int) -> int {
    let up = (t + 1) / 2;
    let down = t / 2;
    if lo < up {
        lo
    } else if 14 - hi < down {
        t - (14 - hi)
    } else {
        up
    }
}

/// The window `(xmin, xmax, ymin, ymax)` with its shorter side grown until
/// both sides span the same number of points.
pub open spec fn squared(xmin: int, xmax: int, ymin: int, ymax: int) -> (int, int, int, int) {
    let dx = xmax - xmin;
    let dy = ymax - ymin;
    if dx > dy {
        let g = low_growth(ymin, ymax, dx - dy);
        (xmin, xmax, ymin - g, ymax + (dx - dy) - g)
    } else if dy > dx {
        let g = low_growth(xmin, xmax, dy - dx);
        (xmin - g, xmax + (dy - dx) - g, ymin, ymax)
    } else {
        (xmin, xmax, ymin, ymax)
    }
}

/// The root window: the stones' bounding box widened by `margin`, clipped
/// to the board, and squared.
pub open spec fn root_window(cells: Seq<Side>, margin: int) -> (int, int, int, int) {
    squared(
        imax(0, stones_min_x(cells, 225) - margin),
        imin(14, stones_max_x(cells, 225) + margin),
        imax(0, stones_min_y(cells, 225) - margin),
        imin(14, stones_max_y(cells, 225) + margin),
    )
}

/// `m` is an empty point inside the window `w`.
pub open spec fn in_window(cells: Seq<Side>, w: (int, int, int, int), m: Move) -> bool {
    &&& m < 225
    &&& cells[m as int] == EMPTY
    &&& w.0 <= m % 15 <= w.1
    &&& w.2 <= m / 15 <= w.3
}

/// The stone extents: smallest and largest column and row holding a stone.
fn stone_extents(board: &Board) -> (r: (i32, i32, i32, i32))
    requires
        board.wf(),
    ensures
        r.0 == stones_min_x(board@.cells, 225),
        r.1 == stones_max_x(board@.cells, 225),
        r.2 == stones_min_y(board@.cells, 225),
        r.3 == stones_max_y(board@.cells, 225),
{
    let mut min_x: i32 = 15;
    let mut max_x: i32 = -1;
    let mut min_y: i32 = 15;
    let mut max_y: i32 = -1;
    let mut k: usize = 0;
    while k < BOARD_AREA
        invariant
            board.wf(),
            k <= BOARD_AREA,
            min_x == stones_min_x(board@.cells, k as int),
            max_x == stones_max_x(board@.cells, k as int),
            min_y == stones_min_y(board@.cells, k as int),
            max_y == stones_max_y(board@.cells, k as int),
            -1 <= max_x < 15,
            0 <= min_x <= 15,
            -1 <= max_y < 15,
            0 <= min_y <= 15,
        decreases BOARD_AREA - k,
    {
        let x = (k % BOARD_SIZE) as i32;
        let y = (k / BOARD_SIZE) as i32;
        if board.cell_value(k % BOARD_SIZE, k / BOARD_SIZE) != EMPTY {
            if x < min_x {
                min_x = x;
            }
            if x > max_x {
                max_x = x;
            }
            if y < min_y {
                min_y = y;
            }
            if y > max_y {
                max_y = y;
            }
        }
        k = k + 1;
    }
    (min_x, max_x, min_y, max_y)
}

/// A board with a stone has a stone extent on the board.
proof fn lemma_extents_on_board(cells: Seq<Side>, n: int)
    requires
        0 <= n <= 225,
        cells.len() == 225,
        exists|i: int| 0 <= i < n && cells[i] != EMPTY,
    ensures
        0 <= stones_min_x(cells, n) <= stones_max_x(cells, n) < 15,
        0 <= stones_min_y(cells, n) <= stones_max_y(cells, n) < 15,
    decreases n,
{
    if exists|i: int| 0 <= i < n - 1 && cells[i] != EMPTY {
        lemma_extents_on_board(cells, n - 1);
    } else {
        assert(cells[n - 1] != EMPTY);
        lemma_extents_below(cells, n - 1);
    }
}

proof fn lemma_extents_below(cells: Seq<Side>, n: int)
    requires
        0 <= n,
        forall|i: int| 0 <= i < n ==> cells[i] == EMPTY,
    ensures
        stones_min_x(cells, n) == 15,
        stones_max_x(cells, n) == -1,
        stones_min_y(cells, n) == 15,
        stones_max_y(cells, n) == -1,
    decreases n,
{
    if n > 0 {
        lemma_extents_below(cells, n - 1);
    }
}

/// Some point holds a stone.
pub open spec fn has_stone(cells: Seq<Side>) -> bool {
    exists|k: int| 0 <= k < 225 && cells[k] != EMPTY
}

/// The empty points of the root window, or `None` when the whole board is
/// searched: with a static board, before the first move, or with no stone
/// on the board.
#[verifier::rlimit(40)]
pub fn root_allowed_moves(board: &Board, runtime: &RuntimeOptions) -> (r: Option<HashSet<Move>>)
    requires
        board.wf(),
        i32::MIN / 2 <= runtime.dynamic_board_margin <= i32::MAX - 15,
    ensures
        runtime.static_board || board@.history.len() == 0 || !has_stone(board@.cells) ==> r.is_none(),
        !runtime.static_board && board@.history.len() > 0 && has_stone(board@.cells) ==> (r matches Some(s)
            && s@ == Set::new(
            |m: Move| in_window(board@.cells, root_window(board@.cells, runtime.dynamic_board_margin as int), m),
        )),
{
    if runtime.static_board || board.move_count() == 0 {
        return None;
    }
    let ghost cells = board@.cells;
    let (min_x, max_x, min_y, max_y) = stone_extents(board);
    if min_x == 15 {
        proof {
            if has_stone(cells) {
                lemma_extents_on_board(cells, 225);
            }
        }
        return None;
    }
    proof {
        if !has_stone(cells) {
            lemma_extents_below(cells, 225);
        }
        lemma_extents_on_board(cells, 225);
    }
    let margin = runtime.dynamic_board_margin;
    let last: i32 = (BOARD_SIZE - 1) as i32;
    let xmin: i32 = if min_x - margin > 0 { min_x - margin } else { 0 };
    let xmax: i32 = if max_x + margin < last { max_x + margin } else { last };
    let ymin: i32 = if min_y - margin > 0 { min_y - margin } else { 0 };
    let ymax: i32 = if max_y + margin < last { max_y + margin } else { last };
    let (wx0, wx1, wy0, wy1) = square_window(xmin, xmax, ymin, ymax);
    Some(window_points(board, wx0, wx1, wy0, wy1))
}

/// Grows the shorter side of the window one point at a time, alternating low
/// end first and high end next, until both sides span the same number of
/// points.
fn square_window(xmin: i32, xmax: i32, ymin: i32, ymax: i32) -> (r: (i32, i32, i32, i32))
    requires
        0 <= xmin,
        xmax <= 14,
        0 <= ymin,
        ymax <= 14,
        xmax - xmin >= i32::MIN,
        ymax - ymin >= i32::MIN,
        -14 <= (xmax - xmin) - (ymax - ymin) <= 14,
    ensures
        (r.0 as int, r.1 as int, r.2 as int, r.3 as int) == squared(xmin as int, xmax as int, ymin as int, ymax as int),
        0 <= r.0,
        r.1 <= 14,
        0 <= r.2,
        r.3 <= 14,
        r.1 - r.0 == r.3 - r.2,
{
    let ghost (x0, x1, y0, y1) = (xmin as int, xmax as int, ymin as int, ymax as int);
    let last: i32 = 14;
    let mut xmin = xmin;
    let mut xmax = xmax;
    let mut ymin = ymin;
    let mut ymax = ymax;
    let mut toggle: i32 = 0;
    while (xmax - xmin) != (ymax - ymin)
        invariant
            0 <= x0,
            x1 <= 14,
            0 <= y0,
            y1 <= 14,
            x1 - x0 >= i32::MIN,
            y1 - y0 >= i32::MIN,
            -14 <= (x1 - x0) - (y1 - y0) <= 14,
            last == 14,
            x1 - x0 > y1 - y0 ==> {
                &&& 0 <= toggle <= (x1 - x0) - (y1 - y0)
                &&& xmin == x0 && xmax == x1
                &&& ymin == y0 - low_growth(y0, y1, toggle as int)
                &&& ymax == y1 + toggle - low_growth(y0, y1, toggle as int)
            },
            y1 - y0 > x1 - x0 ==> {
                &&& 0 <= toggle <= (y1 - y0) - (x1 - x0)
                &&& ymin == y0 && ymax == y1
                &&& xmin == x0 - low_growth(x0, x1, toggle as int)
                &&& xmax == x1 + toggle - low_growth(x0, x1, toggle as int)
            },
            x1 - x0 == y1 - y0 ==> toggle == 0 && xmin == x0 && xmax == x1 && ymin == y0 && ymax == y1,
        decreases (if x1 - x0 > y1 - y0 {
            (x1 - x0) - (y1 - y0)
        } else {
            (y1 - y0) - (x1 - x0)
        }) - toggle,
    {
        toggle += 1;
        if (xmax - xmin) > (ymax - ymin) {
            if toggle % 2 == 1 {
                if ymin > 0 {
                    ymin -= 1;
                } else {
                    ymax = if ymax + 1 < last { ymax + 1 } else { last };
                }
            } else if ymax < last {
                ymax += 1;
            } else {
                ymin = if ymin - 1 > 0 { ymin - 1 } else { 0 };
            }
        } else if toggle % 2 == 1 {
            if xmin > 0 {
                xmin -= 1;
            } else {
                xmax = if xmax + 1 < last { xmax + 1 } else { last };
            }
        } else if xmax < last {
            xmax += 1;
        } else {
            xmin = if xmin - 1 > 0 { xmin - 1 } else { 0 };
        }
    }
    (xmin, xmax, ymin, ymax)
}

/// The empty points of the window.
fn window_points(board: &Board, xmin: i32, xmax: i32, ymin: i32, ymax: i32) -> (s: HashSet<Move>)
    requires
        board.wf(),
        0 <= xmin,
        xmax <= 14,
        0 <= ymin,
        ymax <= 14,
    ensures
        s@ == Set::new(|m: Move| in_window(board@.cells, (xmin as int, xmax as int, ymin as int, ymax as int), m)),
{
    let ghost cells = board@.cells;
    let ghost w = (xmin as int, xmax as int, ymin as int, ymax as int);
    let mut allowed: HashSet<Move> = HashSet::new();
    if xmin > xmax || ymin > ymax {
        proof {
            assert(allowed@ =~= Set::new(|m: Move| in_window(cells, w, m)));
        }
        return allowed;
    }
    let mut y: i32 = ymin;
    while y <= ymax
        invariant
            board.wf(),
            cells == board@.cells,
            w == (xmin as int, xmax as int, ymin as int, ymax as int),
            0 <= xmin <= xmax <= 14,
            0 <= ymin,
            ymax <= 14,
            ymin <= y <= ymax + 1,
            allowed@ == Set::new(|m: Move| in_window(cells, w, m) && m / 15 < y),
        decreases ymax + 1 - y,
    {
        let mut x: i32 = xmin;
        while x <= xmax
            invariant
                board.wf(),
                cells == board@.cells,
                w == (xmin as int, xmax as int, ymin as int, ymax as int),
                0 <= xmin <= xmax <= 14,
                0 <= ymin,
                ymax <= 14,
                ymin <= y <= ymax,
                xmin <= x <= xmax + 1,
                allowed@ == Set::new(
                    |m: Move| in_window(cells, w, m) && (m / 15 < y || (m / 15 == y && m % 15 < x)),
                ),
            decreases xmax + 1 - x,
        {
            if board.cell_value(x as usize, y as usize) == EMPTY {
                let m = (y as usize * BOARD_SIZE + x as usize) as Move;
                allowed.insert(m);
            }
            x += 1;
            proof {
                assert(allowed@ =~= Set::new(
                    |m: Move| in_window(cells, w, m) && (m / 15 < y || (m / 15 == y && m % 15 < x)),
                ));
            }
        }
        y += 1;
        proof {
            assert(allowed@ =~= Set::new(|m: Move| in_window(cells, w, m) && m / 15 < y));
        }
    }
    proof {
        assert(allowed@ =~= Set::new(|m: Move| in_window(cells, w, m)));
    }
    allowed
}

} // verus!
