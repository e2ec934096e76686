//! Board state, move encoding, and make/unmake semantics.
//!
//! Public coordinates are `(x, y) = (column, row)`. The grid is stored flat as
//! `grid[y * BOARD_SIZE + x]`, and a `Move` is encoded as `y * BOARD_SIZE + x`.
use vstd::prelude::*;

use crate::constants::{BLACK, BOARD_AREA, BOARD_SIZE, EMPTY};
use crate::rules::{classify_forbidden_move, classify_spec, ForbiddenKind, RuleSet, grid_cells};
use crate::types::{is_valid_side, opposite_side, valid_cell, valid_side, Move, PlayedMove, Side};
use crate::zobrist::{validate_side, ZobristError, ZobristTable, DEFAULT_SEED};
use crate::text::{append_decimal, append_signed_decimal, decimal_spec, signed_decimal_spec};
use vstd::string::StringExecFns;

verus! {

#[derive(Clone, Copy, Debug, PartialEq, Eq, Structural)]
pub enum BoardError {
    CoordinatesOutOfRange { x: usize, y: usize },
    MoveOutOfRange(Move),
    InvalidSide(Side),
    WrongSideToMove { expected: Side, got: Side },
    IllegalMove(Move),
    EmptyHistory,
}

impl BoardError {
    /// The error as its `Debug` form writes it.
    pub open spec fn debug_spec(self) -> Seq<char> {
        match self {
            BoardError::CoordinatesOutOfRange { x, y } => "CoordinatesOutOfRange { x: "@ + decimal_spec(
                x as nat,
            ) + ", y: "@ + decimal_spec(y as nat) + " }"@,
            BoardError::MoveOutOfRange(m) => "MoveOutOfRange("@ + decimal_spec(m as nat) + ")"@,
            BoardError::InvalidSide(s) => "InvalidSide("@ + signed_decimal_spec(s as int) + ")"@,
            BoardError::WrongSideToMove { expected, got } => "WrongSideToMove { expected: "@
                + signed_decimal_spec(expected as int) + ", got: "@ + signed_decimal_spec(got as int)
                + " }"@,
            BoardError::IllegalMove(m) => "IllegalMove("@ + decimal_spec(m as nat) + ")"@,
            BoardError::EmptyHistory => "EmptyHistory"@,
        }
    }

    /// The error in the text of its `Debug` form.
    pub fn debug_text(self) -> (t: String)
        ensures
            t@ == self.debug_spec(),
    {
        match self {
            BoardError::CoordinatesOutOfRange { x, y } => {
                let mut t = String::from_str("CoordinatesOutOfRange { x: ");
                append_decimal(&mut t, x as u64);
                t.append(", y: ");
                append_decimal(&mut t, y as u64);
                t.append(" }");
                t
            },
            BoardError::MoveOutOfRange(m) => {
                let mut t = String::from_str("MoveOutOfRange(");
                append_decimal(&mut t, m as u64);
                t.append(")");
                t
            },
            BoardError::InvalidSide(side) => {
                let mut t = String::from_str("InvalidSide(");
                append_signed_decimal(&mut t, side as i64);
                t.append(")");
                t
            },
            BoardError::WrongSideToMove { expected, got } => {
                let mut t = String::from_str("WrongSideToMove { expected: ");
                append_signed_decimal(&mut t, expected as i64);
                t.append(", got: ");
                append_signed_decimal(&mut t, got as i64);
                t.append(" }");
                t
            },
            BoardError::IllegalMove(m) => {
                let mut t = String::from_str("IllegalMove(");
                append_decimal(&mut t, m as u64);
                t.append(")");
                t
            },
            BoardError::EmptyHistory => String::from_str("EmptyHistory"),
        }
    }
}

pub fn board_error_from_zobrist(value: ZobristError) -> (e: BoardError)
    ensures
        value matches ZobristError::InvalidMove(m) ==> e == BoardError::MoveOutOfRange(m),
        value matches ZobristError::InvalidSide(s) ==> e == BoardError::InvalidSide(s),
{
    match value {
        ZobristError::InvalidMove(move_) => BoardError::MoveOutOfRange(move_),
        ZobristError::InvalidSide(side) => BoardError::InvalidSide(side),
    }
}

/// The encoding of the point `(x, y)`.
pub open spec fn move_of(x: int, y: int) -> int {
    y * 15 + x
}

pub fn xy_to_move(x: usize, y: usize) -> (r: Result<Move, BoardError>)
    ensures
        x < BOARD_SIZE && y < BOARD_SIZE ==> r == Ok::<Move, BoardError>((y * 15 + x) as Move),
        !(x < BOARD_SIZE && y < BOARD_SIZE) ==> r == Err::<Move, BoardError>(
            BoardError::CoordinatesOutOfRange { x, y },
        ),
{
    if !(x < BOARD_SIZE && y < BOARD_SIZE) {
        return Err(BoardError::CoordinatesOutOfRange { x, y });
    }
    Ok((y * BOARD_SIZE + x) as Move)
}

pub fn rc_to_move(row: usize, col: usize) -> (r: Result<Move, BoardError>)
    ensures
        row < BOARD_SIZE && col < BOARD_SIZE ==> r == Ok::<Move, BoardError>(
            (row * 15 + col) as Move,
        ),
        !(row < BOARD_SIZE && col < BOARD_SIZE) ==> r == Err::<Move, BoardError>(
            BoardError::CoordinatesOutOfRange { x: col, y: row },
        ),
{
    xy_to_move(col, row)
}

pub fn move_to_xy(move_: Move) -> (r: Result<(usize, usize), BoardError>)
    ensures
        move_ < BOARD_AREA ==> r == Ok::<(usize, usize), BoardError>(
            ((move_ % 15) as usize, (move_ / 15) as usize),
        ),
        move_ >= BOARD_AREA ==> r == Err::<(usize, usize), BoardError>(
            BoardError::MoveOutOfRange(move_),
        ),
{
    let index = move_ as usize;
    if index >= BOARD_AREA {
        return Err(BoardError::MoveOutOfRange(move_));
    }
    Ok((index % BOARD_SIZE, index / BOARD_SIZE))
}

pub fn move_to_rc(move_: Move) -> (r: Result<(usize, usize), BoardError>)
    ensures
        move_ < BOARD_AREA ==> r == Ok::<(usize, usize), BoardError>(
            ((move_ / 15) as usize, (move_ % 15) as usize),
        ),
        move_ >= BOARD_AREA ==> r == Err::<(usize, usize), BoardError>(
            BoardError::MoveOutOfRange(move_),
        ),
{
    match move_to_xy(move_) {
        Ok((col, row)) => Ok((row, col)),
        Err(e) => Err(e),
    }
}

/// Encoding a point and decoding the move gives the point back, and every
/// move on the board is the encoding of its decoded point.
pub proof fn lemma_move_encoding_roundtrip(x: int, y: int, m: int)
    requires
        0 <= x < 15,
        0 <= y < 15,
        0 <= m < 225,
    ensures
        move_of(x, y) % 15 == x,
        move_of(x, y) / 15 == y,
        0 <= move_of(x, y) < 225,
        move_of(m % 15, m / 15) == m,
{
}

// ---------------------------------------------------------------------------
// Lines of stones through a point.
// ---------------------------------------------------------------------------

pub open spec fn cell_at(cells: Seq<Side>, x: int, y: int) -> Side {
    cells[y * 15 + x]
}

/// Number of consecutive `side` stones starting at `(x, y)` and stepping by `(dx, dy)`.
pub open spec fn run_length(
    cells: Seq<Side>,
    x: int,
    y: int,
    side: Side,
    dx: int,
    dy: int,
    fuel: nat,
) -> nat
    decreases fuel,
{
    if fuel == 0 {
        0
    } else if 0 <= x < 15 && 0 <= y < 15 && cell_at(cells, x, y) == side {
        1 + run_length(cells, x + dx, y + dy, side, dx, dy, (fuel - 1) as nat)
    } else {
        0
    }
}

/// Stones of `side` in line through `(x, y)` along `(dx, dy)`, counting `(x, y)` itself.
pub open spec fn aligned_count(cells: Seq<Side>, x: int, y: int, side: Side, dx: int, dy: int) -> nat {
    1 + run_length(cells, x + dx, y + dy, side, dx, dy, 15) + run_length(
        cells,
        x - dx,
        y - dy,
        side,
        -dx,
        -dy,
        15,
    )
}

pub open spec fn five_or_more(cells: Seq<Side>, x: int, y: int, side: Side) -> bool {
    aligned_count(cells, x, y, side, 1, 0) >= 5 || aligned_count(cells, x, y, side, 0, 1) >= 5
        || aligned_count(cells, x, y, side, 1, 1) >= 5 || aligned_count(cells, x, y, side, 1, -1)
        >= 5
}

pub open spec fn exactly_five(cells: Seq<Side>, x: int, y: int, side: Side) -> bool {
    aligned_count(cells, x, y, side, 1, 0) == 5 || aligned_count(cells, x, y, side, 0, 1) == 5
        || aligned_count(cells, x, y, side, 1, 1) == 5 || aligned_count(cells, x, y, side, 1, -1)
        == 5
}

/// The four lines through a point: horizontal, vertical and the two diagonals.
pub open spec fn line_direction(dx: int, dy: int) -> bool {
    ||| dx == 1 && dy == 0
    ||| dx == 0 && dy == 1
    ||| dx == 1 && dy == 1
    ||| dx == 1 && dy == -1
}

/// The point `t` steps from `(x, y)` along `(dx, dy)` is on the board and
/// holds a stone of `side`.
pub open spec fn stone_on_line(cells: Seq<Side>, x: int, y: int, side: Side, dx: int, dy: int, t: int) -> bool {
    let px = x + t * dx;
    let py = y + t * dy;
    0 <= px < 15 && 0 <= py < 15 && cell_at(cells, px, py) == side
}

/// Five consecutive stones of `side` along `(dx, dy)`, the `k`-th of them on
/// `(x, y)`.
pub open spec fn five_in_a_row(cells: Seq<Side>, x: int, y: int, side: Side, dx: int, dy: int, k: int) -> bool {
    &&& 0 <= k < 5
    &&& forall|t: int| -k <= t < 5 - k ==> #[trigger] stone_on_line(cells, x, y, side, dx, dy, t)
}

proof fn lemma_run_at_least(cells: Seq<Side>, x: int, y: int, side: Side, dx: int, dy: int, n: nat, fuel: nat)
    requires
        n <= fuel,
        -1 <= dx <= 1,
        -1 <= dy <= 1,
        forall|j: int| 0 <= j < n ==> #[trigger] stone_on_line(cells, x, y, side, dx, dy, j),
    ensures
        run_length(cells, x, y, side, dx, dy, fuel) >= n,
    decreases n,
{
    if n > 0 {
        assert(stone_on_line(cells, x, y, side, dx, dy, 0));
        assert forall|j: int| 0 <= j < n - 1 implies #[trigger] stone_on_line(
            cells,
            x + dx,
            y + dy,
            side,
            dx,
            dy,
            j,
        ) by {
            assert(stone_on_line(cells, x, y, side, dx, dy, j + 1));
            assert(x + (j + 1) * dx == (x + dx) + j * dx) by (nonlinear_arith);
            assert(y + (j + 1) * dy == (y + dy) + j * dy) by (nonlinear_arith);
        }
        lemma_run_at_least(cells, x + dx, y + dy, side, dx, dy, (n - 1) as nat, (fuel - 1) as nat);
    }
}

/// Five in a row wins along every line: five consecutive stones of `side`
/// through `(x, y)` horizontally, vertically or along either diagonal give
/// `five_or_more` there, so the win test treats all four lines alike.
pub proof fn lemma_five_in_a_row_wins(cells: Seq<Side>, x: int, y: int, side: Side, dx: int, dy: int, k: int)
    requires
        line_direction(dx, dy),
        five_in_a_row(cells, x, y, side, dx, dy, k),
    ensures
        five_or_more(cells, x, y, side),
        aligned_count(cells, x, y, side, dx, dy) >= 5,
{
    assert forall|j: int| 0 <= j < 4 - k implies #[trigger] stone_on_line(cells, x + dx, y + dy, side, dx, dy, j) by {
        assert(stone_on_line(cells, x, y, side, dx, dy, j + 1));
        assert(x + (j + 1) * dx == (x + dx) + j * dx) by (nonlinear_arith);
        assert(y + (j + 1) * dy == (y + dy) + j * dy) by (nonlinear_arith);
    }
    lemma_run_at_least(cells, x + dx, y + dy, side, dx, dy, (4 - k) as nat, 15);
    assert forall|j: int| 0 <= j < k implies #[trigger] stone_on_line(cells, x - dx, y - dy, side, -dx, -dy, j) by {
        assert(stone_on_line(cells, x, y, side, dx, dy, -(j + 1)));
        assert(x + (-(j + 1)) * dx == (x - dx) + j * (-dx)) by (nonlinear_arith);
        assert(y + (-(j + 1)) * dy == (y - dy) + j * (-dy)) by (nonlinear_arith);
    }
    lemma_run_at_least(cells, x - dx, y - dy, side, -dx, -dy, k as nat, 15);
}

proof fn lemma_run_stones(cells: Seq<Side>, x: int, y: int, side: Side, dx: int, dy: int, fuel: nat, j: int)
    requires
        0 <= j < run_length(cells, x, y, side, dx, dy, fuel),
    ensures
        stone_on_line(cells, x, y, side, dx, dy, j),
    decreases fuel,
{
    if j == 0 {
        assert(x + 0 * dx == x && y + 0 * dy == y);
    } else {
        lemma_run_stones(cells, x + dx, y + dy, side, dx, dy, (fuel - 1) as nat, j - 1);
        assert((x + dx) + (j - 1) * dx == x + j * dx) by (nonlinear_arith);
        assert((y + dy) + (j - 1) * dy == y + j * dy) by (nonlinear_arith);
    }
}

proof fn lemma_long_line_has_five(cells: Seq<Side>, x: int, y: int, side: Side, dx: int, dy: int)
    requires
        0 <= x < 15,
        0 <= y < 15,
        cell_at(cells, x, y) == side,
        aligned_count(cells, x, y, side, dx, dy) >= 5,
    ensures
        exists|k: int| five_in_a_row(cells, x, y, side, dx, dy, k),
{
    let f = run_length(cells, x + dx, y + dy, side, dx, dy, 15);
    let b = run_length(cells, x - dx, y - dy, side, -dx, -dy, 15);
    let k: int = if b >= 4 {
        4
    } else {
        b as int
    };
    assert forall|t: int| -k <= t < 5 - k implies #[trigger] stone_on_line(cells, x, y, side, dx, dy, t) by {
        if t == 0 {
            assert(x + 0 * dx == x && y + 0 * dy == y);
        } else if t > 0 {
            lemma_run_stones(cells, x + dx, y + dy, side, dx, dy, 15, t - 1);
            assert((x + dx) + (t - 1) * dx == x + t * dx) by (nonlinear_arith);
            assert((y + dy) + (t - 1) * dy == y + t * dy) by (nonlinear_arith);
        } else {
            lemma_run_stones(cells, x - dx, y - dy, side, -dx, -dy, 15, -t - 1);
            assert((x - dx) + (-t - 1) * (-dx) == x + t * dx) by (nonlinear_arith);
            assert((y - dy) + (-t - 1) * (-dy) == y + t * dy) by (nonlinear_arith);
        }
    }
    assert(five_in_a_row(cells, x, y, side, dx, dy, k));
}

/// The win test finds nothing but five in a row: a stone of `side` on
/// `(x, y)` that passes `five_or_more` lies in five consecutive stones of
/// `side` along one of the four lines.
pub proof fn lemma_win_is_five_in_a_row(cells: Seq<Side>, x: int, y: int, side: Side)
    requires
        0 <= x < 15,
        0 <= y < 15,
        cell_at(cells, x, y) == side,
        five_or_more(cells, x, y, side),
    ensures
        exists|dx: int, dy: int, k: int| line_direction(dx, dy) && #[trigger] five_in_a_row(cells, x, y, side, dx, dy, k),
{
    if aligned_count(cells, x, y, side, 1, 0) >= 5 {
        lemma_long_line_has_five(cells, x, y, side, 1, 0);
        let k = choose|k: int| #[trigger] five_in_a_row(cells, x, y, side, 1, 0, k);
        assert(line_direction(1, 0) && five_in_a_row(cells, x, y, side, 1, 0, k));
    } else if aligned_count(cells, x, y, side, 0, 1) >= 5 {
        lemma_long_line_has_five(cells, x, y, side, 0, 1);
        let k = choose|k: int| #[trigger] five_in_a_row(cells, x, y, side, 0, 1, k);
        assert(line_direction(0, 1) && five_in_a_row(cells, x, y, side, 0, 1, k));
    } else if aligned_count(cells, x, y, side, 1, 1) >= 5 {
        lemma_long_line_has_five(cells, x, y, side, 1, 1);
        let k = choose|k: int| #[trigger] five_in_a_row(cells, x, y, side, 1, 1, k);
        assert(line_direction(1, 1) && five_in_a_row(cells, x, y, side, 1, 1, k));
    } else {
        lemma_long_line_has_five(cells, x, y, side, 1, -1);
        let k = choose|k: int| #[trigger] five_in_a_row(cells, x, y, side, 1, -1, k);
        assert(line_direction(1, -1) && five_in_a_row(cells, x, y, side, 1, -1, k));
    }
}

/// A stone of `side` on `(x, y)` wins: exactly five for black under Renju,
/// five or more otherwise.
pub open spec fn wins_for_rule(cells: Seq<Side>, x: int, y: int, side: Side, rule: RuleSet) -> bool {
    if rule == RuleSet::Renju && side == BLACK {
        exactly_five(cells, x, y, side)
    } else {
        five_or_more(cells, x, y, side)
    }
}

// ---------------------------------------------------------------------------
// The board.
// ---------------------------------------------------------------------------

/// The abstract state of a board.
pub ghost struct BoardModel {
    pub cells: Seq<Side>,
    pub history: Seq<PlayedMove>,
    pub side_to_move: Side,
    pub winner: Side,
    pub key: u64,
    pub table: ZobristTable,
}

impl BoardModel {
    /// The move is playable: no winner yet, on the board and on an empty point.
    pub open spec fn legal(self, move_: Move) -> bool {
        self.winner == EMPTY && move_ < BOARD_AREA && self.cells[move_ as int] == EMPTY
    }

    /// Black playing `move_` is a Renju forbidden move.
    pub open spec fn forbidden_for(self, move_: Move, side: Side, rule: RuleSet) -> bool {
        (classify_spec(self.cells, move_, side, rule) matches Ok(kind) && kind
            != ForbiddenKind::NotForbidden)
    }

    /// The state after `side` plays the legal move `move_` under `rule`.
    pub open spec fn after_play(self, move_: Move, side: Side, rule: RuleSet) -> BoardModel {
        let cells = self.cells.update(move_ as int, side);
        BoardModel {
            cells,
            history: self.history.push(PlayedMove { move_, side }),
            side_to_move: (-side) as i8,
            winner: if wins_for_rule(cells, (move_ % 15) as int, (move_ / 15) as int, side, rule) {
                side
            } else {
                self.winner
            },
            key: self.key ^ self.table.turn_key() ^ self.table.stone_key(move_ as int, side),
            table: self.table,
        }
    }

    /// The state after taking back the last move of a non-empty history.
    pub open spec fn after_undo(self) -> BoardModel {
        let last = self.history.last();
        BoardModel {
            cells: self.cells.update(last.move_ as int, EMPTY),
            history: self.history.drop_last(),
            side_to_move: last.side,
            winner: EMPTY,
            key: self.key ^ self.table.stone_key(last.move_ as int, last.side) ^ self.table.turn_key(),
            table: self.table,
        }
    }
}

/// Taking back a move right after playing it gives back the position it was
/// played on.
pub proof fn lemma_undo_after_play(pre: BoardModel, move_: Move, side: Side, rule: RuleSet)
    requires
        model_wf(pre),
        pre.legal(move_),
        side == pre.side_to_move,
    ensures
        pre.after_play(move_, side, rule).after_undo() == pre,
{
    let post = pre.after_play(move_, side, rule);
    let (k, t, st) = (pre.key, pre.table.turn_key(), pre.table.stone_key(move_ as int, side));
    assert(k ^ t ^ st ^ st ^ t == k) by (bit_vector);
    assert(post.history.last() == PlayedMove { move_, side });
    assert(post.history.drop_last() =~= pre.history);
    assert(post.cells.update(move_ as int, EMPTY) =~= pre.cells);
}

/// The XOR of the stone keys of the moves in `h`.
pub open spec fn history_key(table: ZobristTable, h: Seq<PlayedMove>) -> u64
    decreases h.len(),
{
    if h.len() == 0 {
        0
    } else {
        history_key(table, h.drop_last()) ^ table.stone_key(h.last().move_ as int, h.last().side)
    }
}

/// With no turn key, a position whose key is the XOR of the stone keys of
/// its moves keeps that property when a move is played and when the last
/// move is taken back.
pub proof fn lemma_key_is_history_xor(pre: BoardModel, move_: Move, side: Side, rule: RuleSet)
    requires
        pre.table.turn_key() == 0,
        pre.key == history_key(pre.table, pre.history),
    ensures
        pre.after_play(move_, side, rule).key == history_key(pre.table, pre.after_play(move_, side, rule).history),
        pre.history.len() > 0 ==> pre.after_undo().key == history_key(pre.table, pre.after_undo().history),
{
    let post = pre.after_play(move_, side, rule);
    let (k, st) = (pre.key, pre.table.stone_key(move_ as int, side));
    assert(post.history.drop_last() =~= pre.history);
    assert(k ^ 0u64 ^ st == k ^ st) by (bit_vector);
    if pre.history.len() > 0 {
        let last = pre.history.last();
        let h = history_key(pre.table, pre.history.drop_last());
        let sl = pre.table.stone_key(last.move_ as int, last.side);
        assert(h ^ sl ^ sl ^ 0u64 == h) by (bit_vector);
    }
}

/// Whatever moves were played and taken back, a board's position key is
/// the XOR of the stone keys of the moves in its history.
pub proof fn lemma_board_key_is_history_xor(board: &Board)
    requires
        board.wf(),
    ensures
        board@.key == history_key(board@.table, board@.history),
{
}

/// Taking one move out of a history takes its stone key out of the key.
proof fn lemma_history_key_remove(table: ZobristTable, h: Seq<PlayedMove>, j: int)
    requires
        0 <= j < h.len(),
    ensures
        history_key(table, h) == history_key(table, h.remove(j)) ^ table.stone_key(h[j].move_ as int, h[j].side),
    decreases h.len(),
{
    if j == h.len() - 1 {
        assert(h.remove(j) =~= h.drop_last());
    } else {
        let d = h.drop_last();
        lemma_history_key_remove(table, d, j);
        let r = h.remove(j);
        assert(r.drop_last() =~= d.remove(j));
        assert(r.last() == h.last());
        assert(d[j] == h[j]);
        let (a, b, c) = (
            history_key(table, d.remove(j)),
            table.stone_key(h[j].move_ as int, h[j].side),
            table.stone_key(h.last().move_ as int, h.last().side),
        );
        assert((a ^ b) ^ c == (a ^ c) ^ b) by (bit_vector);
    }
}

/// The key does not depend on the order of the moves: histories with the
/// same moves, each by the same side, give the same key.
pub proof fn lemma_history_key_order_free(table: ZobristTable, h1: Seq<PlayedMove>, h2: Seq<PlayedMove>)
    requires
        h1.to_multiset() == h2.to_multiset(),
    ensures
        history_key(table, h1) == history_key(table, h2),
    decreases h1.len(),
{
    broadcast use vstd::seq_lib::group_to_multiset_ensures;

    if h1.len() == 0 {
        assert(h2.to_multiset().len() == 0);
        assert(h2.len() == 0);
    } else {
        let last = h1.last();
        assert(h1.drop_last().push(last) =~= h1);
        assert(h1.to_multiset().count(last) > 0);
        assert(h2.contains(last));
        let j = choose|j: int| 0 <= j < h2.len() && h2[j] == last;
        assert(h2.remove(j).to_multiset() =~= h1.drop_last().to_multiset());
        lemma_history_key_order_free(table, h1.drop_last(), h2.remove(j));
        lemma_history_key_remove(table, h2, j);
    }
}

/// An empty board with `first_side` to move and the table `table`.
pub open spec fn fresh_model(table: ZobristTable, first_side: Side) -> BoardModel {
    BoardModel {
        cells: Seq::new(BOARD_AREA as nat, |i: int| EMPTY),
        history: Seq::empty(),
        side_to_move: first_side,
        winner: EMPTY,
        key: 0,
        table,
    }
}

/// Replaying `moves[i..]` with freestyle play, each by the side to move:
/// the position reached and `Ok`, or the position before the first move
/// that is not legal and its error.
pub open spec fn replay_model(bm: BoardModel, moves: Seq<Move>, i: int) -> (BoardModel, Result<(), BoardError>)
    decreases moves.len() - i,
{
    if i < 0 || i >= moves.len() {
        (bm, Ok(()))
    } else if !bm.legal(moves[i]) {
        (bm, Err(BoardError::IllegalMove(moves[i])))
    } else {
        replay_model(bm.after_play(moves[i], bm.side_to_move, RuleSet::Freestyle), moves, i + 1)
    }
}

#[derive(Debug)]
pub struct Board {
    grid: [Side; BOARD_AREA],
    move_history: Vec<PlayedMove>,
    side_to_move: Side,
    winner: Side,
    zobrist_table: ZobristTable,
    zobrist_key: u64,
}

impl View for Board {
    type V = BoardModel;

    closed spec fn view(&self) -> BoardModel {
        BoardModel {
            cells: self.grid@,
            history: self.move_history@,
            side_to_move: self.side_to_move,
            winner: self.winner,
            key: self.zobrist_key,
            table: self.zobrist_table,
        }
    }
}

/// The model invariant: every cell holds a stone value, the side to move can
/// move, and every recorded move is on the board with a valid side.
pub open spec fn model_wf(m: BoardModel) -> bool {
    &&& grid_cells(m.cells)
    &&& valid_side(m.side_to_move)
    &&& valid_cell(m.winner)
    &&& forall|i: int|
        0 <= i < m.history.len() ==> (#[trigger] m.history[i]).move_ < BOARD_AREA && valid_side(
            m.history[i].side,
        )
}

fn copy_history(v: &Vec<PlayedMove>) -> (out: Vec<PlayedMove>)
    ensures
        out@ == v@,
{
    let mut out: Vec<PlayedMove> = Vec::new();
    let mut i: usize = 0;
    while i < v.len()
        invariant
            i <= v@.len(),
            out@ == v@.subrange(0, i as int),
        decreases v@.len() - i,
    {
        out.push(v[i]);
        i = i + 1;
        assert(out@ =~= v@.subrange(0, i as int));
    }
    assert(v@.subrange(0, v@.len() as int) =~= v@);
    out
}

impl Board {
    pub open spec fn wf(&self) -> bool {
        &&& model_wf(self@)
        &&& self@.table.turn_key() == 0
        &&& self@.key == history_key(self@.table, self@.history)
    }

    /// The stone on `(x, y)`.
    pub open spec fn cell(&self, x: int, y: int) -> Side {
        self@.cells[y * 15 + x]
    }

    fn empty_board(side_to_move: Side) -> (board: Self)
        requires
            valid_side(side_to_move),
        ensures
            board.wf(),
            board@.cells == Seq::new(BOARD_AREA as nat, |i: int| EMPTY),
            board@.history.len() == 0,
            board@.side_to_move == side_to_move,
            board@.winner == EMPTY,
            board@.key == 0,
            board@.table.built_from(DEFAULT_SEED),
    {
        let b = Board {
            grid: [EMPTY; BOARD_AREA],
            move_history: Vec::new(),
            side_to_move,
            winner: EMPTY,
            zobrist_table: ZobristTable::build(DEFAULT_SEED),
            zobrist_key: 0,
        };
        assert(b@.cells =~= Seq::new(BOARD_AREA as nat, |i: int| EMPTY));
        b
    }

    pub fn new() -> (board: Self)
        ensures
            board.wf(),
            board@.cells == Seq::new(BOARD_AREA as nat, |i: int| EMPTY),
            board@.history.len() == 0,
            board@.side_to_move == BLACK,
            board@.winner == EMPTY,
            board@.key == 0,
            board@.table.built_from(DEFAULT_SEED),
    {
        Self::empty_board(BLACK)
    }

    pub fn with_side_to_move(side_to_move: Side) -> (r: Result<Self, BoardError>)
        ensures
            !valid_side(side_to_move) ==> r == Err::<Board, BoardError>(
                BoardError::InvalidSide(side_to_move),
            ),
            valid_side(side_to_move) ==> (r matches Ok(board) && board.wf() && board@.cells
                == Seq::new(BOARD_AREA as nat, |i: int| EMPTY) && board@.history.len() == 0
                && board@.side_to_move == side_to_move && board@.winner == EMPTY && board@.key == 0
                && board@.table.built_from(DEFAULT_SEED)),
    {
        match validate_side(side_to_move) {
            Ok(()) => Ok(Self::empty_board(side_to_move)),
            Err(e) => Err(board_error_from_zobrist(e)),
        }
    }

    /// An independent copy of the board with the same state.
    pub fn duplicate(&self) -> (b: Self)
        ensures
            b@ == self@,
    {
        Board {
            grid: self.grid,
            move_history: copy_history(&self.move_history),
            side_to_move: self.side_to_move,
            winner: self.winner,
            zobrist_table: self.zobrist_table,
            zobrist_key: self.zobrist_key,
        }
    }

    pub fn size(&self) -> (n: usize)
        ensures
            n == BOARD_SIZE,
    {
        BOARD_SIZE
    }

    pub fn move_count(&self) -> (n: usize)
        ensures
            n == self@.history.len(),
    {
        self.move_history.len()
    }

    pub fn side_to_move(&self) -> (s: Side)
        ensures
            s == self@.side_to_move,
    {
        self.side_to_move
    }

    pub fn winner(&self) -> (s: Side)
        ensures
            s == self@.winner,
    {
        self.winner
    }

    pub fn zobrist_key(&self) -> (k: u64)
        ensures
            k == self@.key,
    {
        self.zobrist_key
    }

    pub fn move_history(&self) -> (h: &[PlayedMove])
        ensures
            h@ == self@.history,
    {
        self.move_history.as_slice()
    }

    pub fn in_bounds(&self, x: usize, y: usize) -> (b: bool)
        ensures
            b == (x < BOARD_SIZE && y < BOARD_SIZE),
    {
        x < BOARD_SIZE && y < BOARD_SIZE
    }

    pub fn at(&self, x: usize, y: usize) -> (r: Result<Side, BoardError>)
        requires
            self.wf(),
        ensures
            x < BOARD_SIZE && y < BOARD_SIZE ==> r == Ok::<Side, BoardError>(
                self.cell(x as int, y as int),
            ),
            !(x < BOARD_SIZE && y < BOARD_SIZE) ==> r == Err::<Side, BoardError>(
                BoardError::CoordinatesOutOfRange { x, y },
            ),
    {
        if !self.in_bounds(x, y) {
            return Err(BoardError::CoordinatesOutOfRange { x, y });
        }
        Ok(self.grid[y * BOARD_SIZE + x])
    }

    pub fn at_rc(&self, row: usize, col: usize) -> (r: Result<Side, BoardError>)
        requires
            self.wf(),
        ensures
            row < BOARD_SIZE && col < BOARD_SIZE ==> r == Ok::<Side, BoardError>(
                self.cell(col as int, row as int),
            ),
            !(row < BOARD_SIZE && col < BOARD_SIZE) ==> r == Err::<Side, BoardError>(
                BoardError::CoordinatesOutOfRange { x: col, y: row },
            ),
    {
        self.at(col, row)
    }

    /// The stone on `(x, y)`, which must be on the board.
    pub fn cell_value(&self, x: usize, y: usize) -> (c: Side)
        requires
            self.wf(),
            x < BOARD_SIZE,
            y < BOARD_SIZE,
        ensures
            c == self.cell(x as int, y as int),
    {
        self.grid[y * BOARD_SIZE + x]
    }

    /// A copy of the flat grid.
    pub fn grid_copy(&self) -> (g: [Side; BOARD_AREA])
        ensures
            g@ == self@.cells,
    {
        self.grid
    }

    /// Puts `value` on `(x, y)` without recording a move (used to set up positions).
    pub fn set_grid_cell(&mut self, x: usize, y: usize, value: Side)
        requires
            old(self).wf(),
            x < BOARD_SIZE,
            y < BOARD_SIZE,
            valid_cell(value),
        ensures
            final(self).wf(),
            final(self)@ == (BoardModel { cells: old(self)@.cells.update(y * 15 + x, value), ..old(self)@ }),
    {
        self.grid[y * BOARD_SIZE + x] = value;
    }

    pub fn is_legal_move(&self, move_: Move) -> (b: bool)
        requires
            self.wf(),
        ensures
            b == self@.legal(move_),
    {
        if self.winner != EMPTY {
            return false;
        }
        match move_to_xy(move_) {
            Ok((col, row)) => self.grid[row * BOARD_SIZE + col] == EMPTY,
            Err(_) => false,
        }
    }

    pub fn forbidden_kind_for_rule(&self, move_: Move, side: Side, rule: RuleSet) -> (r: Result<
        ForbiddenKind,
        BoardError,
    >)
        requires
            self.wf(),
        ensures
            r == classify_spec(self@.cells, move_, side, rule),
    {
        classify_forbidden_move(self, move_, side, rule)
    }

    pub fn is_legal_move_for_rule(&self, move_: Move, side: Side, rule: RuleSet) -> (b: bool)
        requires
            self.wf(),
        ensures
            b == (self@.legal(move_) && classify_spec(self@.cells, move_, side, rule)
                == Ok::<ForbiddenKind, BoardError>(ForbiddenKind::NotForbidden)),
    {
        if !self.is_legal_move(move_) {
            return false;
        }
        match classify_forbidden_move(self, move_, side, rule) {
            Ok(kind) => !kind.is_forbidden(),
            Err(_) => false,
        }
    }

    pub fn play(&mut self, move_: Move, side: Option<Side>) -> (r: Result<PlayedMove, BoardError>)
        requires
            old(self).wf(),
        ensures
            final(self).wf(),
            Self::play_contract(old(self)@, final(self)@, move_, side, RuleSet::Freestyle, true, r),
    {
        self.play_with_rule(move_, side, RuleSet::Freestyle, true)
    }

    pub fn play_for_rule(&mut self, move_: Move, side: Option<Side>, rule: RuleSet) -> (r: Result<
        PlayedMove,
        BoardError,
    >)
        requires
            old(self).wf(),
        ensures
            final(self).wf(),
            Self::play_contract(old(self)@, final(self)@, move_, side, rule, true, r),
    {
        self.play_with_rule(move_, side, rule, true)
    }

    /// Plays without the Renju forbidden-move check (the caller vouches for legality);
    /// the winner is still decided under `rule`.
    pub fn play_assuming_rule_legal(
        &mut self,
        move_: Move,
        side: Option<Side>,
        rule: RuleSet,
    ) -> (r: Result<PlayedMove, BoardError>)
        requires
            old(self).wf(),
        ensures
            final(self).wf(),
            Self::play_contract(old(self)@, final(self)@, move_, side, rule, false, r),
    {
        self.play_with_rule(move_, side, rule, false)
    }

    /// What `play_with_rule` does: the first failed check gives its error and
    /// leaves the board alone; otherwise the move is made.
    pub open spec fn play_contract(
        pre: BoardModel,
        post: BoardModel,
        move_: Move,
        side: Option<Side>,
        rule: RuleSet,
        check_forbidden: bool,
        r: Result<PlayedMove, BoardError>,
    ) -> bool {
        let s = match side {
            Some(s) => s,
            None => pre.side_to_move,
        };
        if !valid_side(s) {
            r == Err::<PlayedMove, BoardError>(BoardError::InvalidSide(s)) && post == pre
        } else if s != pre.side_to_move {
            r == Err::<PlayedMove, BoardError>(
                BoardError::WrongSideToMove { expected: pre.side_to_move, got: s },
            ) && post == pre
        } else if !pre.legal(move_) {
            r == Err::<PlayedMove, BoardError>(BoardError::IllegalMove(move_)) && post == pre
        } else if check_forbidden && rule == RuleSet::Renju && s == BLACK && pre.forbidden_for(
            move_,
            s,
            rule,
        ) {
            r == Err::<PlayedMove, BoardError>(BoardError::IllegalMove(move_)) && post == pre
        } else {
            r == Ok::<PlayedMove, BoardError>(PlayedMove { move_, side: s }) && post
                == pre.after_play(move_, s, rule)
        }
    }

    #[verifier::rlimit(50)]
    fn play_with_rule(
        &mut self,
        move_: Move,
        side: Option<Side>,
        rule: RuleSet,
        check_forbidden: bool,
    ) -> (r: Result<PlayedMove, BoardError>)
        requires
            old(self).wf(),
        ensures
            final(self).wf(),
            Self::play_contract(old(self)@, final(self)@, move_, side, rule, check_forbidden, r),
    {
        let side = match side {
            Some(s) => s,
            None => self.side_to_move,
        };
        if !is_valid_side(side) {
            return Err(BoardError::InvalidSide(side));
        }
        if side != self.side_to_move {
            return Err(BoardError::WrongSideToMove { expected: self.side_to_move, got: side });
        }
        if !self.is_legal_move(move_) {
            return Err(BoardError::IllegalMove(move_));
        }
        if check_forbidden && matches!(rule, RuleSet::Renju) && side == BLACK {
            match classify_forbidden_move(self, move_, side, rule) {
                Ok(kind) => {
                    if kind.is_forbidden() {
                        return Err(BoardError::IllegalMove(move_));
                    }
                },
                Err(_) => {},
            }
        }
        let index = move_ as usize;
        let col = index % BOARD_SIZE;
        let row = index / BOARD_SIZE;
        self.grid[index] = side;
        let played = PlayedMove { move_, side };
        let ghost old_hist = self.move_history@;
        self.move_history.push(played);
        proof {
            assert forall|i: int| 0 <= i < self.move_history@.len() implies (
            #[trigger] self.move_history@[i]).move_ < BOARD_AREA && valid_side(
                self.move_history@[i].side,
            ) by {
                if i < old_hist.len() {
                    assert(self.move_history@[i] == old_hist[i]);
                    assert(old_hist[i] == old(self)@.history[i]);
                } else {
                    assert(self.move_history@[i] == played);
                }
            }
        }
        let turn = self.zobrist_table.key_for_turn();
        self.zobrist_key = self.zobrist_key ^ turn;
        let stone = if side == BLACK {
            self.zobrist_table.black_at(index)
        } else {
            self.zobrist_table.white_at(index)
        };
        self.zobrist_key = self.zobrist_key ^ stone;
        proof {
            lemma_key_is_history_xor(old(self)@, move_, side, rule);
            assert(self.move_history@ == old(self)@.history.push(played));
            assert(self.zobrist_key == old(self)@.key ^ old(self)@.table.turn_key() ^ old(self)@.table.stone_key(
                move_ as int,
                side,
            ));
            assert(self@.key == history_key(self@.table, self@.history));
        }
        if self.is_winning_move_for_rule(col, row, side, rule) {
            self.winner = side;
        }
        self.side_to_move = opposite_side(side);
        Ok(played)
    }

    pub fn undo(&mut self) -> (r: Result<PlayedMove, BoardError>)
        requires
            old(self).wf(),
        ensures
            final(self).wf(),
            old(self)@.history.len() == 0 ==> r == Err::<PlayedMove, BoardError>(
                BoardError::EmptyHistory,
            ) && final(self)@ == old(self)@,
            old(self)@.history.len() > 0 ==> r == Ok::<PlayedMove, BoardError>(old(self)@.history.last())
                && final(self)@ == old(self)@.after_undo(),
    {
        let played = match self.move_history.pop() {
            Some(p) => p,
            None => return Err(BoardError::EmptyHistory),
        };
        proof {
            assert(old(self)@.history[old(self)@.history.len() - 1] == played);
        }
        let index = played.move_ as usize;
        self.grid[index] = EMPTY;
        let stone = if played.side == BLACK {
            self.zobrist_table.black_at(index)
        } else {
            self.zobrist_table.white_at(index)
        };
        self.zobrist_key = self.zobrist_key ^ stone;
        self.zobrist_key = self.zobrist_key ^ self.zobrist_table.key_for_turn();
        self.side_to_move = played.side;
        self.winner = EMPTY;
        proof {
            lemma_key_is_history_xor(old(self)@, 0, BLACK, RuleSet::Freestyle);
            assert(self.move_history@ == old(self)@.history.drop_last());
        }
        Ok(played)
    }

    /// Clears the board, gives the move to `first_side` and plays `moves` in
    /// turn: the first move that cannot be played ends the replay with its
    /// error, the moves before it staying on the board.
    pub fn replay(&mut self, moves: &[Move], first_side: Side) -> (r: Result<(), BoardError>)
        requires
            old(self).wf(),
        ensures
            final(self).wf(),
            !valid_side(first_side) ==> r == Err::<(), BoardError>(
                BoardError::InvalidSide(first_side),
            ) && final(self)@ == old(self)@,
            valid_side(first_side) ==> (final(self)@, r) == replay_model(
                fresh_model(old(self)@.table, first_side),
                moves@,
                0,
            ),
            r is Ok ==> final(self)@.history.len() == moves@.len() && forall|i: int|
                0 <= i < moves@.len() ==> (#[trigger] final(self)@.history[i]).move_ == moves@[i],
    {
        if !is_valid_side(first_side) {
            return Err(BoardError::InvalidSide(first_side));
        }
        let ghost table = self@.table;
        self.reset();
        self.side_to_move = first_side;
        assert(self@ == fresh_model(table, first_side));
        let mut i: usize = 0;
        while i < moves.len()
            invariant
                self.wf(),
                valid_side(first_side),
                i <= moves@.len(),
                self@.history.len() == i,
                forall|j: int| 0 <= j < i ==> (#[trigger] self@.history[j]).move_ == moves@[j],
                table == old(self)@.table,
                replay_model(self@, moves@, i as int) == replay_model(fresh_model(table, first_side), moves@, 0),
            decreases moves@.len() - i,
        {
            let ghost before = self@;
            match self.play(moves[i], None) {
                Ok(_) => {},
                Err(e) => {
                    assert(valid_side(before.side_to_move));
                    assert(!before.legal(moves@[i as int]));
                    assert(e == BoardError::IllegalMove(moves@[i as int]));
                    assert(self@ == before);
                    assert(replay_model(before, moves@, i as int) == (
                        before,
                        Err::<(), BoardError>(BoardError::IllegalMove(moves@[i as int])),
                    ));
                    return Err(e);
                },
            }
            proof {
                let ghost h = self@.history;
                assert forall|j: int| 0 <= j < i + 1 implies (#[trigger] h[j]).move_ == moves@[j] by {
                    if j < i {
                        assert(h[j] == h.drop_last()[j]);
                    }
                }
            }
            i = i + 1;
        }
        Ok(())
    }

    pub fn reset(&mut self)
        requires
            old(self).wf(),
        ensures
            final(self).wf(),
            final(self)@ == (BoardModel {
                cells: Seq::new(BOARD_AREA as nat, |i: int| EMPTY),
                history: Seq::empty(),
                side_to_move: BLACK,
                winner: EMPTY,
                key: 0,
                table: old(self)@.table,
            }),
    {
        self.grid = [EMPTY; BOARD_AREA];
        self.move_history.clear();
        self.side_to_move = BLACK;
        self.winner = EMPTY;
        self.zobrist_key = 0;
        assert(self@.cells =~= Seq::new(BOARD_AREA as nat, |i: int| EMPTY));
    }

    /// Every point holds a stone.
    pub fn is_full(&self) -> (b: bool)
        requires
            self.wf(),
        ensures
            b == (forall|k: int| 0 <= k < BOARD_AREA ==> #[trigger] self@.cells[k] != EMPTY),
    {
        let mut k: usize = 0;
        while k < BOARD_AREA
            invariant
                self.wf(),
                k <= BOARD_AREA,
                forall|j: int| 0 <= j < k ==> #[trigger] self@.cells[j] != EMPTY,
            decreases BOARD_AREA - k,
        {
            if self.grid[k] == EMPTY {
                return false;
            }
            k = k + 1;
        }
        true
    }

    /// The board is full and nobody has won.
    pub fn is_draw(&self) -> (b: bool)
        requires
            self.wf(),
        ensures
            b == (self@.winner == EMPTY && forall|k: int| 0 <= k < BOARD_AREA ==> #[trigger] self@.cells[k] != EMPTY),
    {
        self.winner == EMPTY && self.is_full()
    }

    /// The game is over: somebody has won or the board is full.
    pub fn is_terminal(&self) -> (b: bool)
        requires
            self.wf(),
        ensures
            b == (self@.winner != EMPTY || forall|k: int| 0 <= k < BOARD_AREA ==> #[trigger] self@.cells[k] != EMPTY),
    {
        self.winner != EMPTY || self.is_full()
    }

    pub fn occupied_moves(&self) -> (v: Vec<Move>)
        ensures
            v@.len() == self@.history.len(),
            forall|i: int| 0 <= i < v@.len() ==> v@[i] == (#[trigger] self@.history[i]).move_,
    {
        let mut v: Vec<Move> = Vec::new();
        let mut i: usize = 0;
        while i < self.move_history.len()
            invariant
                i <= self@.history.len(),
                v@.len() == i,
                forall|j: int| 0 <= j < i ==> v@[j] == (#[trigger] self@.history[j]).move_,
            decreases self@.history.len() - i,
        {
            v.push(self.move_history[i].move_);
            i = i + 1;
        }
        v
    }

    /// Changes the side to move, toggling the turn key when it changes.
    pub fn force_side_to_move(&mut self, side: Side) -> (r: Result<(), BoardError>)
        requires
            old(self).wf(),
        ensures
            final(self).wf(),
            !valid_side(side) ==> r == Err::<(), BoardError>(BoardError::InvalidSide(side))
                && final(self)@ == old(self)@,
            valid_side(side) ==> r == Ok::<(), BoardError>(()) && final(self)@ == (BoardModel {
                side_to_move: side,
                key: if old(self)@.side_to_move != side {
                    old(self)@.key ^ old(self)@.table.turn_key()
                } else {
                    old(self)@.key
                },
                ..old(self)@
            }),
    {
        if !is_valid_side(side) {
            return Err(BoardError::InvalidSide(side));
        }
        if self.side_to_move != side {
            let ghost k = self.zobrist_key;
            assert(k ^ 0u64 == k) by (bit_vector);
            self.zobrist_key = self.zobrist_key ^ self.zobrist_table.key_for_turn();
            self.side_to_move = side;
        }
        Ok(())
    }

    pub fn is_winning_move(&self, x: usize, y: usize, side: Side) -> (b: bool)
        requires
            self.wf(),
            x < BOARD_SIZE,
            y < BOARD_SIZE,
        ensures
            b == five_or_more(self@.cells, x as int, y as int, side),
    {
        self.count_aligned(x, y, side, 1, 0) >= 5 || self.count_aligned(x, y, side, 0, 1) >= 5
            || self.count_aligned(x, y, side, 1, 1) >= 5 || self.count_aligned(x, y, side, 1, -1)
            >= 5
    }

    pub fn is_winning_move_for_rule(&self, x: usize, y: usize, side: Side, rule: RuleSet) -> (b:
        bool)
        requires
            self.wf(),
            x < BOARD_SIZE,
            y < BOARD_SIZE,
        ensures
            b == wins_for_rule(self@.cells, x as int, y as int, side, rule),
    {
        if matches!(rule, RuleSet::Renju) && side == BLACK {
            self.count_aligned(x, y, side, 1, 0) == 5 || self.count_aligned(x, y, side, 0, 1) == 5
                || self.count_aligned(x, y, side, 1, 1) == 5 || self.count_aligned(
                x,
                y,
                side,
                1,
                -1,
            ) == 5
        } else {
            self.is_winning_move(x, y, side)
        }
    }

    fn count_aligned(&self, x: usize, y: usize, side: Side, dx: isize, dy: isize) -> (n: usize)
        requires
            self.wf(),
            x < BOARD_SIZE,
            y < BOARD_SIZE,
            -1 <= dx <= 1,
            -1 <= dy <= 1,
            dx != 0 || dy != 0,
        ensures
            n == aligned_count(self@.cells, x as int, y as int, side, dx as int, dy as int),
    {
        1 + self.count_one_side(x, y, side, dx, dy) + self.count_one_side(x, y, side, -dx, -dy)
    }

    fn count_one_side(&self, x: usize, y: usize, side: Side, dx: isize, dy: isize) -> (n: usize)
        requires
            self.wf(),
            x < BOARD_SIZE,
            y < BOARD_SIZE,
            -1 <= dx <= 1,
            -1 <= dy <= 1,
            dx != 0 || dy != 0,
        ensures
            n == run_length(
                self@.cells,
                x + dx,
                y + dy,
                side,
                dx as int,
                dy as int,
                15,
            ),
            n <= 14,
    {
        let ghost cells = self@.cells;
        let mut count: usize = 0;
        let mut cx: isize = x as isize + dx;
        let mut cy: isize = y as isize + dy;
        while cx >= 0 && cy >= 0 && (cx as usize) < BOARD_SIZE && (cy as usize) < BOARD_SIZE
            && self.grid[(cy as usize) * BOARD_SIZE + (cx as usize)] == side
            invariant
                self.wf(),
                cells == self@.cells,
                x < BOARD_SIZE,
                y < BOARD_SIZE,
                -1 <= dx <= 1,
                -1 <= dy <= 1,
                dx != 0 || dy != 0,
                count <= 14,
                dx == 1 ==> cx == x + count + 1,
                dx == -1 ==> cx == x - count - 1,
                dx == 0 ==> cx == x,
                dy == 1 ==> cy == y + count + 1,
                dy == -1 ==> cy == y - count - 1,
                dy == 0 ==> cy == y,
                run_length(cells, x + dx, y + dy, side, dx as int, dy as int, 15) == count
                    + run_length(cells, cx as int, cy as int, side, dx as int, dy as int, (15
                    - count) as nat),
            decreases 15 - count,
        {
            assert(count <= 13);
            count = count + 1;
            cx = cx + dx;
            cy = cy + dy;
        }
        count
    }
}

} // verus!
