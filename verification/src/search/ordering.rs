//! Move ordering helpers.
use vstd::prelude::*;

use crate::board::Board;
use crate::types::Side;

verus! {

pub fn ordering_backend_name() -> (s: &'static str)
    ensures
        s@ == "python"@,
{
    "python"
}

/// The free run from `(x, y)` in direction `(dx, dy)`: the number of steps
/// from `step` up to 4 that stay on the board and off the opponent's stones.
pub open spec fn free_run(cells: Seq<Side>, x: int, y: int, dx: int, dy: int, opponent: Side, step: int) -> int
    decreases 5 - step,
{
    let tx = x + dx * step;
    let ty = y + dy * step;
    if step > 4 || step < 1 || !(0 <= tx < 15 && 0 <= ty < 15) || cells[ty * 15 + tx] == opponent {
        0
    } else {
        1 + free_run(cells, x, y, dx, dy, opponent, step + 1)
    }
}

/// The mobility of `(x, y)` for `side`: one plus the free runs in the eight
/// directions.
pub open spec fn mobility(cells: Seq<Side>, x: int, y: int, side: Side) -> int {
    let o = -side as i8;
    1 + free_run(cells, x, y, 1, 0, o, 1) + free_run(cells, x, y, -1, 0, o, 1) + free_run(
        cells,
        x,
        y,
        0,
        1,
        o,
        1,
    ) + free_run(cells, x, y, 0, -1, o, 1) + free_run(cells, x, y, 1, 1, o, 1) + free_run(
        cells,
        x,
        y,
        -1,
        -1,
        o,
        1,
    ) + free_run(cells, x, y, -1, 1, o, 1) + free_run(cells, x, y, 1, -1, o, 1)
}

proof fn lemma_free_run_bounds(cells: Seq<Side>, x: int, y: int, dx: int, dy: int, opponent: Side, step: int)
    ensures
        0 <= free_run(cells, x, y, dx, dy, opponent, step),
        1 <= step <= 5 ==> free_run(cells, x, y, dx, dy, opponent, step) <= 5 - step,
        free_run(cells, x, y, dx, dy, opponent, step) <= 4,
        step < 1 ==> free_run(cells, x, y, dx, dy, opponent, step) == 0,
    decreases 5 - step,
{
    if step <= 4 && step >= 1 {
        lemma_free_run_bounds(cells, x, y, dx, dy, opponent, step + 1);
    }
}

fn free_run_exec(board: &Board, x: usize, y: usize, dx: i64, dy: i64, opponent: Side) -> (n: i32)
    requires
        board.wf(),
        x < 15,
        y < 15,
        -1 <= dx <= 1,
        -1 <= dy <= 1,
    ensures
        n == free_run(board@.cells, x as int, y as int, dx as int, dy as int, opponent, 1),
{
    let mut n: i32 = 0;
    let mut step: i64 = 1;
    while step <= 4
        invariant
            board.wf(),
            x < 15,
            y < 15,
            -1 <= dx <= 1,
            -1 <= dy <= 1,
            1 <= step <= 5,
            0 <= n < step,
            n + free_run(board@.cells, x as int, y as int, dx as int, dy as int, opponent, step as int)
                == free_run(board@.cells, x as int, y as int, dx as int, dy as int, opponent, 1),
        decreases 5 - step,
    {
        assert(-5 <= dx * step <= 5 && -5 <= dy * step <= 5) by (nonlinear_arith)
            requires
                -1 <= dx <= 1,
                -1 <= dy <= 1,
                1 <= step <= 5,
        ;
        let tx = x as i64 + dx * step;
        let ty = y as i64 + dy * step;
        if tx < 0 || ty < 0 || tx >= 15 || ty >= 15 {
            return n;
        }
        if board.cell_value(tx as usize, ty as usize) == opponent {
            return n;
        }
        n = n + 1;
        step = step + 1;
    }
    n
}

/// The classic mobility of `(x, y)` for `side`: one plus, in each of the
/// eight directions, the cells up to four steps away reached before the
/// board's edge or an opponent stone.
pub fn getmi(board: &Board, x: usize, y: usize, side: Side) -> (m: i32)
    requires
        board.wf(),
        x < 15,
        y < 15,
        side != i8::MIN,
    ensures
        m == mobility(board@.cells, x as int, y as int, side),
        1 <= m <= 33,
{
    let opponent: Side = -side;
    let cells = Ghost(board@.cells);
    proof {
        lemma_free_run_bounds(cells@, x as int, y as int, 1, 0, opponent, 1);
        lemma_free_run_bounds(cells@, x as int, y as int, -1, 0, opponent, 1);
        lemma_free_run_bounds(cells@, x as int, y as int, 0, 1, opponent, 1);
        lemma_free_run_bounds(cells@, x as int, y as int, 0, -1, opponent, 1);
        lemma_free_run_bounds(cells@, x as int, y as int, 1, 1, opponent, 1);
        lemma_free_run_bounds(cells@, x as int, y as int, -1, -1, opponent, 1);
        lemma_free_run_bounds(cells@, x as int, y as int, -1, 1, opponent, 1);
        lemma_free_run_bounds(cells@, x as int, y as int, 1, -1, opponent, 1);
    }
    let mut ret: i32 = 1;
    ret = ret + free_run_exec(board, x, y, 1, 0, opponent);
    ret = ret + free_run_exec(board, x, y, -1, 0, opponent);
    ret = ret + free_run_exec(board, x, y, 0, 1, opponent);
    ret = ret + free_run_exec(board, x, y, 0, -1, opponent);
    ret = ret + free_run_exec(board, x, y, 1, 1, opponent);
    ret = ret + free_run_exec(board, x, y, -1, -1, opponent);
    ret = ret + free_run_exec(board, x, y, -1, 1, opponent);
    ret = ret + free_run_exec(board, x, y, 1, -1, opponent);
    ret
}

} // verus!
