//! Threat-focused board view and tactical helpers.
//!
//! The view reads the four lines through a point (column, row, main diagonal,
//! anti-diagonal; directions 1 to 4) and runs the line pattern scans on them.
use vstd::prelude::*;
use vstd::cell::invcell::InvCell;
use vstd::predicate::Predicate;

use crate::board::{wins_for_rule, Board, BoardModel};
use crate::constants::{BLACK, BOARD_AREA, EMPTY};
use crate::patterns::line::{
    a3_spec, a4_spec, a5_spec, a6_spec, b4_spec, b4p_spec, line_cells_ok, line_from_board_spec,
    line_value, scan_a3, scan_a4, scan_a5, scan_a6, scan_b4, scan_b4p, Line,
};
use crate::patterns::shapes::{DIAGONAL_DOWN, DIAGONAL_UP, HORIZONTAL, VERTICAL};
use crate::rules::{classify_forbidden_move, classify_spec, grid_cells, ForbiddenKind, RuleSet};
use crate::threats::types::{AttackMove, ThreatLevel};
use crate::types::{valid_cell, valid_side, Move, PlayedMove, Side};

verus! {

pub const MAX_BROKEN_FOUR_REPLIES: usize = 8;

// ---------------------------------------------------------------------------
// The four lines through a point.
// ---------------------------------------------------------------------------

pub open spec fn tdir_pivot(x: int, y: int, d: int) -> int {
    if d == 1 {
        x
    } else if d == 2 {
        y
    } else if d == 3 {
        x + y
    } else {
        14 - y + x
    }
}

pub open spec fn tdir_const(d: int) -> i32 {
    if d == 1 {
        HORIZONTAL
    } else if d == 2 {
        VERTICAL
    } else if d == 3 {
        DIAGONAL_DOWN
    } else {
        DIAGONAL_UP
    }
}

/// The index of point `(x, y)` on its line in direction `d`.
pub open spec fn tpi(x: int, y: int, d: int) -> int {
    if d == 1 {
        y
    } else if d == 2 {
        x
    } else if d == 3 {
        y
    } else {
        14 - y
    }
}

/// The line through `(x, y)` in direction `d` (1 to 4).
pub open spec fn tline(cells: Seq<Side>, x: int, y: int, d: int) -> Seq<i32> {
    line_from_board_spec(cells, tdir_pivot(x, y, d), tdir_const(d))
}

pub open spec fn on_board(x: int, y: int) -> bool {
    0 <= x < 15 && 0 <= y < 15
}

pub proof fn lemma_tline(cells: Seq<Side>, x: int, y: int, d: int)
    requires
        grid_cells(cells),
        on_board(x, y),
        1 <= d <= 4,
    ensures
        line_cells_ok(tline(cells, x, y, d)),
        0 <= tpi(x, y, d) < 15,
        tline(cells, x, y, d)[tpi(x, y, d) + 2] == cells[y * 15 + x] as i32,
{
    let s = tline(cells, x, y, d);
    assert forall|k: int| 0 <= k < 19 implies line_value(#[trigger] s[k]) by {
        if 2 <= k < 17 {
            let i = k - 2;
            let p = tdir_pivot(x, y, d);
            if d == 1 {
                assert(valid_cell(cells[i * 15 + p]));
            } else if d == 2 {
                assert(valid_cell(cells[p * 15 + i]));
            } else if 0 <= p - i < 15 {
                if d == 3 {
                    assert(valid_cell(cells[i * 15 + (p - i)]));
                } else {
                    assert(valid_cell(cells[(14 - i) * 15 + (p - i)]));
                }
            }
        }
    }
}

fn threat_line(board: &Board, x: usize, y: usize, d: usize) -> (line: Vec<i32>)
    requires
        board.wf(),
        x < 15,
        y < 15,
        1 <= d <= 4,
    ensures
        line@ == tline(board@.cells, x as int, y as int, d as int),
        line_cells_ok(line@),
{
    proof {
        lemma_tline(board@.cells, x as int, y as int, d as int);
    }
    let (pivot, direction): (usize, i32) = if d == 1 {
        (x, HORIZONTAL)
    } else if d == 2 {
        (y, VERTICAL)
    } else if d == 3 {
        (x + y, DIAGONAL_DOWN)
    } else {
        (14 - y + x, DIAGONAL_UP)
    };
    match Line::from_board(board, pivot, direction) {
        Ok(line) => line.cells,
        Err(_) => Vec::new(),
    }
}

pub open spec fn point_index(x: int, y: int, d: int) -> usize {
    tpi(x, y, d) as usize
}

// ---------------------------------------------------------------------------
// Decoding line points back to board moves.
// ---------------------------------------------------------------------------

pub open spec fn ga_spec(v: int) -> int {
    v % 256
}

pub open spec fn gb_spec(v: int) -> int {
    (v / 256) % 256
}

/// The board move of point `raw` on the line of direction `d` through `(x, y)`.
pub open spec fn decode_spec(x: int, y: int, d: int, raw: int) -> Option<Move> {
    let tx = if d == 1 {
        x
    } else if d == 2 {
        raw
    } else if d == 3 {
        x + y - raw
    } else {
        14 + x - y - raw
    };
    let ty = if d == 1 {
        raw
    } else if d == 2 {
        y
    } else if d == 3 {
        raw
    } else {
        14 - raw
    };
    if d < 1 || d > 4 {
        None
    } else if on_board(tx, ty) {
        Some((ty * 15 + tx) as Move)
    } else {
        None
    }
}

fn ga(value: i32) -> (r: usize)
    requires
        value >= 0,
    ensures
        r == ga_spec(value as int),
{
    (value % 256) as usize
}

fn gb(value: i32) -> (r: usize)
    requires
        value >= 0,
    ensures
        r == gb_spec(value as int),
{
    ((value / 256) % 256) as usize
}

fn decode_line_raw_move(x: usize, y: usize, direction_index: usize, raw: usize) -> (m: Option<Move>)
    requires
        x < 15,
        y < 15,
        raw < 256,
    ensures
        m == decode_spec(x as int, y as int, direction_index as int, raw as int),
        m matches Some(mv) ==> mv < BOARD_AREA,
{
    let xi = x as i64;
    let yi = y as i64;
    let r = raw as i64;
    let (tx, ty): (i64, i64) = if direction_index == 1 {
        (xi, r)
    } else if direction_index == 2 {
        (r, yi)
    } else if direction_index == 3 {
        (xi + yi - r, r)
    } else if direction_index == 4 {
        (14 + xi - yi - r, 14 - r)
    } else {
        return None;
    };
    if tx >= 0 && ty >= 0 && tx < 15 && ty < 15 {
        Some((ty * 15 + tx) as u16)
    } else {
        None
    }
}

/// The decoded moves of a line code: the low point, then the second point when
/// the code holds two.
pub open spec fn line_cands(x: int, y: int, d: int, code: int) -> Seq<Move> {
    if code <= 0 {
        Seq::empty()
    } else {
        let first = match decode_spec(x, y, d, ga_spec(code)) {
            Some(m) => seq![m],
            None => Seq::empty(),
        };
        let second = if code >= 65536 {
            match decode_spec(x, y, d, gb_spec(code)) {
                Some(m) => seq![m],
                None => Seq::empty(),
            }
        } else {
            Seq::empty()
        };
        first + second
    }
}

fn push_line_cands(out: &mut Vec<Move>, x: usize, y: usize, d: usize, code: i32)
    requires
        x < 15,
        y < 15,
    ensures
        final(out)@ == old(out)@ + line_cands(x as int, y as int, d as int, code as int),
{
    if code <= 0 {
        assert(old(out)@ + line_cands(x as int, y as int, d as int, code as int) =~= old(out)@);
        return;
    }
    let ghost before = out@;
    let m1 = decode_line_raw_move(x, y, d, ga(code));
    match m1 {
        Some(m) => out.push(m),
        None => {},
    }
    let ghost mid = out@;
    if code >= 65536 {
        let m2 = decode_line_raw_move(x, y, d, gb(code));
        match m2 {
            Some(m) => out.push(m),
            None => {},
        }
    }
    assert(out@ =~= before + line_cands(x as int, y as int, d as int, code as int));
}

fn push_line_cands_if(out: &mut Vec<Move>, cond: bool, x: usize, y: usize, d: usize, code: i32)
    requires
        x < 15,
        y < 15,
    ensures
        final(out)@ == old(out)@ + (if cond {
            line_cands(x as int, y as int, d as int, code as int)
        } else {
            Seq::<Move>::empty()
        }),
{
    if cond {
        push_line_cands(out, x, y, d, code);
    } else {
        assert(old(out)@ + Seq::<Move>::empty() =~= old(out)@);
    }
}

// ---------------------------------------------------------------------------
// Collecting distinct moves.
// ---------------------------------------------------------------------------

pub open spec fn push_unique_spec(s: Seq<Move>, m: Move, cap: int) -> Seq<Move> {
    if s.contains(m) || s.len() >= cap {
        s
    } else {
        s.push(m)
    }
}

/// The distinct moves among the first `k` candidates that pass `keep`, in
/// order, at most `cap` of them.
pub open spec fn collect_unique(cands: Seq<Move>, keep: spec_fn(Move) -> bool, cap: int, k: int) -> Seq<
    Move,
>
    decreases k,
{
    if k <= 0 {
        Seq::empty()
    } else {
        let acc = collect_unique(cands, keep, cap, k - 1);
        if keep(cands[k - 1]) {
            push_unique_spec(acc, cands[k - 1], cap)
        } else {
            acc
        }
    }
}

proof fn lemma_collect_unique_len(cands: Seq<Move>, keep: spec_fn(Move) -> bool, cap: int, k: int)
    requires
        cap >= 0,
    ensures
        collect_unique(cands, keep, cap, k).len() <= cap,
        k >= 0 ==> collect_unique(cands, keep, cap, k).len() <= k,
    decreases k,
{
    if k > 0 {
        lemma_collect_unique_len(cands, keep, cap, k - 1);
    }
}

fn push_unique_vec(v: &mut Vec<Move>, m: Move, cap: usize)
    ensures
        final(v)@ == push_unique_spec(old(v)@, m, cap as int),
{
    let mut i: usize = 0;
    while i < v.len()
        invariant
            i <= v@.len(),
            v@ == old(v)@,
            forall|j: int| 0 <= j < i ==> v@[j] != m,
        decreases v@.len() - i,
    {
        if v[i] == m {
            assert(v@.contains(m)) by {
                assert(v@[i as int] == m);
            }
            return;
        }
        i = i + 1;
    }
    if v.len() >= cap {
        return;
    }
    v.push(m);
}

/// Rule-aware legality of `side` playing `m`.
#[verifier::opaque]
pub open spec fn rule_legal(bm: BoardModel, m: Move, side: Side, rule: RuleSet) -> bool {
    bm.legal(m) && classify_spec(bm.cells, m, side, rule) == Ok::<ForbiddenKind, crate::board::BoardError>(
        ForbiddenKind::NotForbidden,
    )
}

/// A rule-legal move is a legal move.
pub proof fn lemma_rule_legal_is_legal(bm: BoardModel, m: Move, side: Side, rule: RuleSet)
    requires
        rule_legal(bm, m, side, rule),
    ensures
        bm.legal(m),
{
    reveal(rule_legal);
}

// ---------------------------------------------------------------------------
// Broken-four replies.
// ---------------------------------------------------------------------------

#[derive(Clone, Debug, PartialEq, Eq)]
pub struct BrokenFourReplies {
    moves: Vec<Move>,
}

impl View for BrokenFourReplies {
    type V = Seq<Move>;

    closed spec fn view(&self) -> Seq<Move> {
        self.moves@
    }
}

impl BrokenFourReplies {
    pub fn new() -> (r: Self)
        ensures
            r@ == Seq::<Move>::empty(),
    {
        BrokenFourReplies { moves: Vec::new() }
    }

    /// Adds `move_` unless it is already held or eight moves are held.
    pub fn push_unique(&mut self, move_: Move)
        ensures
            final(self)@ == push_unique_spec(old(self)@, move_, MAX_BROKEN_FOUR_REPLIES as int),
    {
        push_unique_vec(&mut self.moves, move_, MAX_BROKEN_FOUR_REPLIES);
    }

    pub fn as_slice(&self) -> (s: &[Move])
        ensures
            s@ == self@,
    {
        self.moves.as_slice()
    }

    pub fn first(&self) -> (m: Option<Move>)
        ensures
            self@.len() == 0 ==> m.is_none(),
            self@.len() > 0 ==> m == Some(self@[0]),
    {
        if self.moves.len() == 0 {
            None
        } else {
            Some(self.moves[0])
        }
    }

    pub fn is_empty(&self) -> (b: bool)
        ensures
            b == (self@.len() == 0),
    {
        self.moves.len() == 0
    }

    pub fn len(&self) -> (n: usize)
        ensures
            n == self@.len(),
    {
        self.moves.len()
    }
}

// ---------------------------------------------------------------------------
// Specifications of the view's queries.
// ---------------------------------------------------------------------------

pub open spec fn a4_dir(cells: Seq<Side>, x: int, y: int, d: int) -> int {
    a4_spec(tline(cells, x, y, d), tpi(x, y, d))
}

pub open spec fn has_a4_spec(cells: Seq<Side>, x: int, y: int) -> bool {
    a4_dir(cells, x, y, 1) > 0 || a4_dir(cells, x, y, 2) > 0 || a4_dir(cells, x, y, 3) > 0
        || a4_dir(cells, x, y, 4) > 0
}

pub open spec fn a5_dir(cells: Seq<Side>, x: int, y: int, d: int) -> int {
    a5_spec(tline(cells, x, y, d), tpi(x, y, d))
}

pub open spec fn has_a5_spec(cells: Seq<Side>, x: int, y: int) -> bool {
    cells[y * 15 + x] != EMPTY && (a5_dir(cells, x, y, 1) > 0 || a5_dir(cells, x, y, 2) > 0
        || a5_dir(cells, x, y, 3) > 0 || a5_dir(cells, x, y, 4) > 0)
}

pub open spec fn a6_dir(cells: Seq<Side>, x: int, y: int, d: int) -> int {
    a6_spec(tline(cells, x, y, d), tpi(x, y, d))
}

pub open spec fn has_a6_spec(cells: Seq<Side>, x: int, y: int) -> bool {
    cells[y * 15 + x] != EMPTY && (a6_dir(cells, x, y, 1) > 0 || a6_dir(cells, x, y, 2) > 0
        || a6_dir(cells, x, y, 3) > 0 || a6_dir(cells, x, y, 4) > 0)
}

pub open spec fn b4_dir(cells: Seq<Side>, x: int, y: int, d: int) -> int {
    b4_spec(tline(cells, x, y, d), tpi(x, y, d))
}

pub open spec fn b4_count_spec(cells: Seq<Side>, x: int, y: int) -> int {
    if cells[y * 15 + x] == EMPTY {
        0
    } else {
        b4_dir(cells, x, y, 1) + b4_dir(cells, x, y, 2) + b4_dir(cells, x, y, 3) + b4_dir(
            cells,
            x,
            y,
            4,
        )
    }
}

pub open spec fn bcode(cells: Seq<Side>, x: int, y: int, d: int) -> int {
    b4p_spec(tline(cells, x, y, d), tpi(x, y, d))
}

pub open spec fn a3code(cells: Seq<Side>, x: int, y: int, d: int) -> int {
    a3_spec(tline(cells, x, y, d), tpi(x, y, d))
}

pub open spec fn dec_code(x: int, y: int, d: int, code: int) -> Option<Move> {
    decode_spec(x, y, d, ga_spec(code))
}

/// The reply to the four(s) through `(x, y)` and whether it is ambiguous.
#[verifier::opaque]
pub open spec fn bfr_spec(cells: Seq<Side>, x: int, y: int) -> (Option<Move>, bool) {
    let c1 = bcode(cells, x, y, 1);
    let c2 = bcode(cells, x, y, 2);
    let c3 = bcode(cells, x, y, 3);
    let c4 = bcode(cells, x, y, 4);
    if c1 >= 65536 {
        (dec_code(x, y, 1, c1), true)
    } else if c2 >= 65536 {
        (dec_code(x, y, 2, c2), true)
    } else if c3 >= 65536 {
        (dec_code(x, y, 3, c3), true)
    } else if c4 >= 65536 {
        (dec_code(x, y, 4, c4), true)
    } else {
        let n = (if c1 != 0 {
            1int
        } else {
            0
        }) + (if c2 != 0 {
            1int
        } else {
            0
        }) + (if c3 != 0 {
            1int
        } else {
            0
        }) + (if c4 != 0 {
            1int
        } else {
            0
        });
        if n == 0 {
            (None, false)
        } else if n == 1 {
            if c1 != 0 {
                (dec_code(x, y, 1, c1), false)
            } else if c2 != 0 {
                (dec_code(x, y, 2, c2), false)
            } else if c3 != 0 {
                (dec_code(x, y, 3, c3), false)
            } else {
                (dec_code(x, y, 4, c4), false)
            }
        } else if c1 != 0 {
            (dec_code(x, y, 1, c1), true)
        } else if c2 != 0 {
            (dec_code(x, y, 2, c2), true)
        } else {
            (dec_code(x, y, 3, c3), true)
        }
    }
}

pub open spec fn two_cands(x: int, y: int, d: int, c: int) -> Seq<Move> {
    if c >= 65536 {
        line_cands(x, y, d, c)
    } else {
        Seq::<Move>::empty()
    }
}

pub open spec fn any_cands(x: int, y: int, d: int, c: int) -> Seq<Move> {
    if c != 0 {
        line_cands(x, y, d, c)
    } else {
        Seq::<Move>::empty()
    }
}

/// Candidate replies in the order they are tried: two-point lines first, then
/// every line with a four, directions 1 to 4.
pub open spec fn reply_cands(cells: Seq<Side>, x: int, y: int) -> Seq<Move> {
    let c1 = bcode(cells, x, y, 1);
    let c2 = bcode(cells, x, y, 2);
    let c3 = bcode(cells, x, y, 3);
    let c4 = bcode(cells, x, y, 4);
    two_cands(x, y, 1, c1) + two_cands(x, y, 2, c2) + two_cands(x, y, 3, c3) + two_cands(x, y, 4, c4)
        + any_cands(x, y, 1, c1) + any_cands(x, y, 2, c2) + any_cands(x, y, 3, c3) + any_cands(
        x,
        y,
        4,
        c4,
    )
}

/// The legal replies for `side` to the four(s) through `(x, y)`.
pub open spec fn legal_replies_spec(bm: BoardModel, rule: RuleSet, x: int, y: int, side: Side) -> Seq<
    Move,
> {
    let cands = reply_cands(bm.cells, x, y);
    collect_unique(
        cands,
        |m: Move| rule_legal(bm, m, side, rule),
        MAX_BROKEN_FOUR_REPLIES as int,
        cands.len() as int,
    )
}

/// Candidate gain points of the open threes through `(x, y)`.
pub open spec fn gain_cands(cells: Seq<Side>, x: int, y: int) -> Seq<Move> {
    line_cands(x, y, 1, a3code(cells, x, y, 1)) + line_cands(x, y, 2, a3code(cells, x, y, 2))
        + line_cands(x, y, 3, a3code(cells, x, y, 3)) + line_cands(x, y, 4, a3code(cells, x, y, 4))
}

/// The distinct gain points of the open threes through `(x, y)`.
pub open spec fn gains_spec(cells: Seq<Side>, x: int, y: int) -> Seq<Move> {
    let cands = gain_cands(cells, x, y);
    collect_unique(cands, |m: Move| true, BOARD_AREA as int, cands.len() as int)
}

/// The sixteen neighbour offsets used to find threat candidates.
pub open spec fn threat_dir(k: int) -> (int, int) {
    if k == 0 {
        (-2, -2)
    } else if k == 1 {
        (-1, -1)
    } else if k == 2 {
        (2, 2)
    } else if k == 3 {
        (1, 1)
    } else if k == 4 {
        (-2, 2)
    } else if k == 5 {
        (-1, 1)
    } else if k == 6 {
        (2, -2)
    } else if k == 7 {
        (1, -1)
    } else if k == 8 {
        (2, 0)
    } else if k == 9 {
        (1, 0)
    } else if k == 10 {
        (0, 2)
    } else if k == 11 {
        (0, 1)
    } else if k == 12 {
        (-2, 0)
    } else if k == 13 {
        (-1, 0)
    } else if k == 14 {
        (0, -2)
    } else {
        (0, -1)
    }
}

pub open spec fn near_side(cells: Seq<Side>, x: int, y: int, side: Side) -> bool {
    exists|k: int|
        0 <= k < 16 && #[trigger] on_board(x + threat_dir(k).0, y + threat_dir(k).1) && cells[(y
            + threat_dir(k).1) * 15 + x + threat_dir(k).0] == side
}

/// Point number `k` in column-major order is `(k / 15, k % 15)`.
pub open spec fn threat_pred(bm: BoardModel, side: Side, rule: RuleSet, k: int) -> bool {
    let x = k / 15;
    let y = k % 15;
    bm.cells[y * 15 + x] == EMPTY && near_side(bm.cells, x, y, side) && rule_legal(
        bm,
        (y * 15 + x) as Move,
        side,
        rule,
    )
}

/// The threat candidates among the first `k` points (column-major order).
pub open spec fn threat_moves_upto(bm: BoardModel, side: Side, rule: RuleSet, k: int) -> Seq<Move>
    decreases k,
{
    if k <= 0 {
        Seq::empty()
    } else {
        let acc = threat_moves_upto(bm, side, rule, k - 1);
        if threat_pred(bm, side, rule, k - 1) {
            acc.push((((k - 1) % 15) * 15 + (k - 1) / 15) as Move)
        } else {
            acc
        }
    }
}

/// Empty points next to a stone of `side` (within two cells on a line) that
/// `side` may legally play, column by column.
pub open spec fn threat_moves_spec(bm: BoardModel, side: Side, rule: RuleSet) -> Seq<Move> {
    threat_moves_upto(bm, side, rule, BOARD_AREA as int)
}

/// The board after the view makes `side` the side to move and plays `m`.
#[verifier::opaque]
pub open spec fn view_after_play(bm: BoardModel, m: Move, side: Side, rule: RuleSet) -> BoardModel {
    let forced = BoardModel {
        side_to_move: side,
        key: if bm.side_to_move != side {
            bm.key ^ bm.table.turn_key()
        } else {
            bm.key
        },
        ..bm
    };
    forced.after_play(m, side, rule)
}

/// The board after the view takes back its last move and restores `previous`
/// as the side to move.
pub open spec fn view_after_undo(bm: BoardModel, previous: Side) -> BoardModel {
    let last = bm.history.last();
    let undone = BoardModel {
        cells: bm.cells.update(last.move_ as int, EMPTY),
        history: bm.history.drop_last(),
        side_to_move: last.side,
        winner: EMPTY,
        key: bm.key ^ bm.table.stone_key(last.move_ as int, last.side) ^ bm.table.turn_key(),
        table: bm.table,
    };
    BoardModel {
        side_to_move: previous,
        key: if undone.side_to_move != previous {
            undone.key ^ undone.table.turn_key()
        } else {
            undone.key
        },
        ..undone
    }
}

proof fn lemma_xor_cancel(a: u64, b: u64)
    ensures
        (a ^ b) ^ b == a,
{
    assert((a ^ b) ^ b == a) by (bit_vector);
}

/// Playing a legal move in the view and taking it back gives the board back.
pub proof fn lemma_play_undo_restores(bm: BoardModel, m: Move, side: Side, rule: RuleSet)
    requires
        crate::board::model_wf(bm),
        valid_side(side),
        bm.legal(m),
    ensures
        view_after_undo(view_after_play(bm, m, side, rule), bm.side_to_move) == bm,
{
    reveal(view_after_play);
    let p = view_after_play(bm, m, side, rule);
    let u = view_after_undo(p, bm.side_to_move);
    let t = bm.table.turn_key();
    let s = bm.table.stone_key(m as int, side);
    let k0 = if bm.side_to_move != side {
        bm.key ^ t
    } else {
        bm.key
    };
    assert(p.history.last() == PlayedMove { move_: m, side });
    assert(p.key == k0 ^ t ^ s);
    assert((k0 ^ t ^ s) ^ s ^ t == k0) by (bit_vector);
    if bm.side_to_move != side {
        lemma_xor_cancel(bm.key, t);
    }
    assert(u.cells =~= bm.cells);
    assert(u.history =~= bm.history);
}

// ---------------------------------------------------------------------------
// The view.
// ---------------------------------------------------------------------------

// ---------------------------------------------------------------------------
// Remembered Renju verdicts for Black.
// ---------------------------------------------------------------------------

/// Number of positions whose Black verdicts are remembered.
pub const LEGALITY_SLOTS: usize = 64;

/// A position and what is known of Black's moves on it: per point, 0 when
/// not yet classified, 1 when the move is allowed, 2 when it is forbidden.
pub struct LegalitySlot {
    pub cells: [Side; BOARD_AREA],
    pub verdicts: [u8; BOARD_AREA],
}

/// Black playing `m` on `cells` is allowed under Renju.
pub open spec fn renju_black_allowed(cells: Seq<Side>, m: int) -> bool {
    classify_spec(cells, m as Move, BLACK, RuleSet::Renju) == Ok::<ForbiddenKind, crate::board::BoardError>(
        ForbiddenKind::NotForbidden,
    )
}

/// Every recorded verdict is the classification of its position.
pub open spec fn slot_sound(s: LegalitySlot) -> bool {
    forall|m: int|
        0 <= m < BOARD_AREA ==> (#[trigger] s.verdicts@[m] == 1u8 ==> renju_black_allowed(s.cells@, m)) && (
        s.verdicts@[m] == 2u8 ==> !renju_black_allowed(s.cells@, m))
}

pub open spec fn legality_sound(c: Option<Vec<LegalitySlot>>) -> bool {
    match c {
        None => true,
        Some(slots) => slots@.len() == LEGALITY_SLOTS && forall|i: int|
            0 <= i < slots@.len() ==> slot_sound(#[trigger] slots@[i]),
    }
}

/// The invariant of the verdict memory.
pub struct SoundVerdicts;

impl Predicate<Option<Vec<LegalitySlot>>> for SoundVerdicts {
    open spec fn predicate(&self, v: Option<Vec<LegalitySlot>>) -> bool {
        legality_sound(v)
    }
}

fn fresh_slots() -> (v: Vec<LegalitySlot>)
    ensures
        legality_sound(Some(v)),
{
    let mut v: Vec<LegalitySlot> = Vec::new();
    let mut i: usize = 0;
    while i < LEGALITY_SLOTS
        invariant
            i <= LEGALITY_SLOTS,
            v@.len() == i,
            forall|j: int| 0 <= j < v@.len() ==> slot_sound(#[trigger] v@[j]),
        decreases LEGALITY_SLOTS - i,
    {
        v.push(LegalitySlot { cells: [EMPTY; BOARD_AREA], verdicts: [0u8; BOARD_AREA] });
        i = i + 1;
    }
    v
}

fn same_cells(a: &[Side; BOARD_AREA], b: &[Side; BOARD_AREA]) -> (r: bool)
    ensures
        r == (a@ == b@),
{
    let mut i: usize = 0;
    while i < BOARD_AREA
        invariant
            i <= BOARD_AREA,
            a@.len() == BOARD_AREA,
            b@.len() == BOARD_AREA,
            forall|j: int| 0 <= j < i ==> a@[j] == b@[j],
        decreases BOARD_AREA - i,
    {
        if a[i] != b[i] {
            return false;
        }
        i = i + 1;
    }
    assert(a@ =~= b@);
    true
}

pub struct ThreatBoardView {
    pub board: Board,
    pub rule_set: RuleSet,
    pub previous_sides: Vec<Side>,
    pub legality: InvCell<Option<Vec<LegalitySlot>>, SoundVerdicts>,
}

impl ThreatBoardView {
    pub open spec fn rule(&self) -> RuleSet {
        self.rule_set
    }

    /// Sides to move saved by `play`, for `undo` to restore.
    pub open spec fn saved_sides(&self) -> Seq<Side> {
        self.previous_sides@
    }

    pub open spec fn wf(&self) -> bool {
        &&& self.board.wf()
        &&& forall|i: int|
            0 <= i < self.saved_sides().len() ==> valid_side(#[trigger] self.saved_sides()[i])
    }

    pub fn from_board(board: Board) -> (view: Self)
        requires
            board.wf(),
        ensures
            view.wf(),
            view.board@ == board@,
            view.rule() == RuleSet::Freestyle,
            view.saved_sides().len() == 0,
    {
        Self::from_board_with_rule(board, RuleSet::Freestyle)
    }

    pub fn from_board_with_rule(board: Board, rule_set: RuleSet) -> (view: Self)
        requires
            board.wf(),
        ensures
            view.wf(),
            view.board@ == board@,
            view.rule() == rule_set,
            view.saved_sides().len() == 0,
    {
        ThreatBoardView {
            board,
            rule_set,
            previous_sides: Vec::new(),
            legality: InvCell::new(None, Ghost(SoundVerdicts)),
        }
    }

    pub fn rule_set(&self) -> (r: RuleSet)
        ensures
            r == self.rule(),
    {
        self.rule_set
    }

    /// Makes `side` the side to move and plays the legal move `move_`.
    pub fn play(&mut self, move_: Move, side: Side)
        requires
            old(self).wf(),
            valid_side(side),
            old(self).board@.legal(move_),
        ensures
            final(self).wf(),
            final(self).board@ == view_after_play(old(self).board@, move_, side, old(self).rule()),
            final(self).board@.history.len() == old(self).board@.history.len() + 1,
            final(self).board@.cells == old(self).board@.cells.update(move_ as int, side),
            final(self).rule() == old(self).rule(),
            final(self).saved_sides() == old(self).saved_sides().push(old(self).board@.side_to_move),
    {
        proof {
            reveal(view_after_play);
        }
        let previous_side = self.board.side_to_move();
        self.previous_sides.push(previous_side);
        let _ = self.board.force_side_to_move(side);
        let _ = self.board.play_assuming_rule_legal(move_, Some(side), self.rule_set);
        proof {
            assert forall|i: int|
                0 <= i < self.saved_sides().len() implies valid_side(
                #[trigger] self.saved_sides()[i],
            ) by {
                if i < old(self).saved_sides().len() {
                    assert(self.saved_sides()[i] == old(self).saved_sides()[i]);
                }
            }
        }
    }

    /// Takes back the last move and restores the side to move saved by `play`.
    pub fn undo(&mut self)
        requires
            old(self).wf(),
            old(self).saved_sides().len() > 0,
            old(self).board@.history.len() > 0,
        ensures
            final(self).wf(),
            final(self).board@ == view_after_undo(
                old(self).board@,
                old(self).saved_sides().last(),
            ),
            final(self).rule() == old(self).rule(),
            final(self).saved_sides() == old(self).saved_sides().drop_last(),
    {
        let previous_side = match self.previous_sides.pop() {
            Some(s) => s,
            None => BLACK,
        };
        proof {
            assert(previous_side == old(self).saved_sides().last());
            assert(valid_side(old(self).saved_sides()[old(self).saved_sides().len() - 1]));
        }
        let _ = self.board.undo();
        let _ = self.board.force_side_to_move(previous_side);
        proof {
            assert forall|i: int|
                0 <= i < self.saved_sides().len() implies valid_side(
                #[trigger] self.saved_sides()[i],
            ) by {
                assert(self.saved_sides()[i] == old(self).saved_sides()[i]);
            }
        }
    }

    fn line(&self, x: usize, y: usize, d: usize) -> (line: Vec<i32>)
        requires
            self.wf(),
            x < 15,
            y < 15,
            1 <= d <= 4,
        ensures
            line@ == tline(self.board@.cells, x as int, y as int, d as int),
            line_cells_ok(line@),
    {
        threat_line(&self.board, x, y, d)
    }

    fn pidx(x: usize, y: usize, d: usize) -> (p: usize)
        requires
            x < 15,
            y < 15,
            1 <= d <= 4,
        ensures
            p == tpi(x as int, y as int, d as int),
            p < 15,
    {
        if d == 1 {
            y
        } else if d == 2 {
            x
        } else if d == 3 {
            y
        } else {
            14 - y
        }
    }

    fn a4_at(&self, x: usize, y: usize, d: usize) -> (r: i32)
        requires
            self.wf(),
            x < 15,
            y < 15,
            1 <= d <= 4,
        ensures
            r == a4_dir(self.board@.cells, x as int, y as int, d as int),
    {
        let line = self.line(x, y, d);
        scan_a4(line.as_slice(), Self::pidx(x, y, d))
    }

    fn a5_at(&self, x: usize, y: usize, d: usize) -> (r: i32)
        requires
            self.wf(),
            x < 15,
            y < 15,
            1 <= d <= 4,
        ensures
            r == a5_dir(self.board@.cells, x as int, y as int, d as int),
    {
        let line = self.line(x, y, d);
        scan_a5(line.as_slice(), Self::pidx(x, y, d))
    }

    fn a6_at(&self, x: usize, y: usize, d: usize) -> (r: i32)
        requires
            self.wf(),
            x < 15,
            y < 15,
            1 <= d <= 4,
        ensures
            r == a6_dir(self.board@.cells, x as int, y as int, d as int),
    {
        let line = self.line(x, y, d);
        scan_a6(line.as_slice(), Self::pidx(x, y, d))
    }

    fn b4_at(&self, x: usize, y: usize, d: usize) -> (r: i32)
        requires
            self.wf(),
            x < 15,
            y < 15,
            1 <= d <= 4,
        ensures
            r == b4_dir(self.board@.cells, x as int, y as int, d as int),
            0 <= r <= 2,
    {
        let line = self.line(x, y, d);
        proof {
            lemma_b4_range(line@, tpi(x as int, y as int, d as int));
        }
        scan_b4(line.as_slice(), Self::pidx(x, y, d))
    }

    fn b4p_at(&self, x: usize, y: usize, d: usize) -> (r: i32)
        requires
            self.wf(),
            x < 15,
            y < 15,
            1 <= d <= 4,
        ensures
            r == bcode(self.board@.cells, x as int, y as int, d as int),
            r >= 0,
    {
        let line = self.line(x, y, d);
        scan_b4p(line.as_slice(), Self::pidx(x, y, d))
    }

    fn a3_at(&self, x: usize, y: usize, d: usize) -> (r: i32)
        requires
            self.wf(),
            x < 15,
            y < 15,
            1 <= d <= 4,
        ensures
            r == a3code(self.board@.cells, x as int, y as int, d as int),
    {
        let line = self.line(x, y, d);
        scan_a3(line.as_slice(), Self::pidx(x, y, d))
    }

    pub fn has_a4(&self, x: usize, y: usize) -> (b: bool)
        requires
            self.wf(),
            x < 15,
            y < 15,
        ensures
            b == has_a4_spec(self.board@.cells, x as int, y as int),
    {
        self.a4_at(x, y, 1) > 0 || self.a4_at(x, y, 2) > 0 || self.a4_at(x, y, 3) > 0 || self.a4_at(
            x,
            y,
            4,
        ) > 0
    }

    pub fn has_a6(&self, x: usize, y: usize) -> (b: bool)
        requires
            self.wf(),
            x < 15,
            y < 15,
        ensures
            b == has_a6_spec(self.board@.cells, x as int, y as int),
    {
        if self.board.cell_value(x, y) == EMPTY {
            return false;
        }
        self.a6_at(x, y, 1) > 0 || self.a6_at(x, y, 2) > 0 || self.a6_at(x, y, 3) > 0 || self.a6_at(
            x,
            y,
            4,
        ) > 0
    }

    pub fn has_a5(&self, x: usize, y: usize) -> (b: bool)
        requires
            self.wf(),
            x < 15,
            y < 15,
        ensures
            b == has_a5_spec(self.board@.cells, x as int, y as int),
    {
        if self.board.cell_value(x, y) == EMPTY {
            return false;
        }
        self.a5_at(x, y, 1) > 0 || self.a5_at(x, y, 2) > 0 || self.a5_at(x, y, 3) > 0 || self.a5_at(
            x,
            y,
            4,
        ) > 0
    }

    pub fn b4_count(&self, x: usize, y: usize) -> (n: i32)
        requires
            self.wf(),
            x < 15,
            y < 15,
        ensures
            n == b4_count_spec(self.board@.cells, x as int, y as int),
            0 <= n <= 8,
    {
        if self.board.cell_value(x, y) == EMPTY {
            return 0;
        }
        self.b4_at(x, y, 1) + self.b4_at(x, y, 2) + self.b4_at(x, y, 3) + self.b4_at(x, y, 4)
    }

    pub fn is_double4(&self, x: usize, y: usize) -> (b: bool)
        requires
            self.wf(),
            x < 15,
            y < 15,
        ensures
            b == (b4_count_spec(self.board@.cells, x as int, y as int) >= 2),
    {
        self.b4_count(x, y) >= 2
    }

    pub fn broken_four_reply_with_ambiguity(&self, x: usize, y: usize) -> (r: (Option<Move>, bool))
        requires
            self.wf(),
            x < 15,
            y < 15,
        ensures
            r == bfr_spec(self.board@.cells, x as int, y as int),
            r.0 matches Some(m) ==> m < BOARD_AREA,
    {
        proof {
            reveal(bfr_spec);
        }
        let c1 = self.b4p_at(x, y, 1);
        let c2 = self.b4p_at(x, y, 2);
        let c3 = self.b4p_at(x, y, 3);
        let c4 = self.b4p_at(x, y, 4);
        if c1 >= 65536 {
            return (decode_line_raw_move(x, y, 1, ga(c1)), true);
        }
        if c2 >= 65536 {
            return (decode_line_raw_move(x, y, 2, ga(c2)), true);
        }
        if c3 >= 65536 {
            return (decode_line_raw_move(x, y, 3, ga(c3)), true);
        }
        if c4 >= 65536 {
            return (decode_line_raw_move(x, y, 4, ga(c4)), true);
        }
        let n: usize = (if c1 != 0 {
            1usize
        } else {
            0
        }) + (if c2 != 0 {
            1usize
        } else {
            0
        }) + (if c3 != 0 {
            1usize
        } else {
            0
        }) + (if c4 != 0 {
            1usize
        } else {
            0
        });
        if n == 0 {
            return (None, false);
        }
        if n == 1 {
            if c1 != 0 {
                return (decode_line_raw_move(x, y, 1, ga(c1)), false);
            } else if c2 != 0 {
                return (decode_line_raw_move(x, y, 2, ga(c2)), false);
            } else if c3 != 0 {
                return (decode_line_raw_move(x, y, 3, ga(c3)), false);
            } else {
                return (decode_line_raw_move(x, y, 4, ga(c4)), false);
            }
        }
        if c1 != 0 {
            (decode_line_raw_move(x, y, 1, ga(c1)), true)
        } else if c2 != 0 {
            (decode_line_raw_move(x, y, 2, ga(c2)), true)
        } else {
            (decode_line_raw_move(x, y, 3, ga(c3)), true)
        }
    }

    pub fn broken_four_reply(&self, x: usize, y: usize) -> (m: Option<Move>)
        requires
            self.wf(),
            x < 15,
            y < 15,
        ensures
            m == bfr_spec(self.board@.cells, x as int, y as int).0,
            m matches Some(mv) ==> mv < BOARD_AREA,
    {
        self.broken_four_reply_with_ambiguity(x, y).0
    }

    /// Rule-aware legality of `move_` for `side`.
    pub fn is_rule_legal(&self, move_: Move, side: Side) -> (b: bool)
        requires
            self.wf(),
        ensures
            b == rule_legal(self.board@, move_, side, self.rule()),
    {
        self.rule_legal_cached(move_, side)
    }

    /// Rule-aware legality of `move_` for `side`. Black's Renju verdicts are
    /// remembered per position, so that asking again on the same position
    /// does not classify again.
    pub fn rule_legal_cached(&self, move_: Move, side: Side) -> (b: bool)
        requires
            self.wf(),
        ensures
            b == rule_legal(self.board@, move_, side, self.rule()),
    {
        proof {
            reveal(rule_legal);
        }
        if self.rule_set != RuleSet::Renju || side != BLACK {
            return self.board.is_legal_move_for_rule(move_, side, self.rule_set);
        }
        if !self.board.is_legal_move(move_) {
            return false;
        }
        let m = move_ as usize;
        let cells = self.board.grid_copy();
        let index = (self.board.zobrist_key() % (LEGALITY_SLOTS as u64)) as usize;
        let remembered = self.legality.replace(None);
        let mut slots = match remembered {
            Some(v) => v,
            None => fresh_slots(),
        };
        let same = same_cells(&slots[index].cells, &cells);
        if same {
            let known = slots[index].verdicts[m];
            if known == 1 || known == 2 {
                proof {
                    assert(slot_sound(slots@[index as int]));
                    assert(slots@[index as int].verdicts@[m as int] == known);
                    assert(slots@[index as int].cells@ == self.board@.cells);
                    assert(m as Move == move_);
                }
                self.legality.replace(Some(slots));
                return known == 1;
            }
        }
        let allowed = match classify_forbidden_move(&self.board, move_, BLACK, RuleSet::Renju) {
            Ok(kind) => kind == ForbiddenKind::NotForbidden,
            Err(_) => false,
        };
        let mut verdicts: [u8; BOARD_AREA] = if same {
            slots[index].verdicts
        } else {
            [0u8; BOARD_AREA]
        };
        verdicts[m] = if allowed {
            1
        } else {
            2
        };
        let slot = LegalitySlot { cells, verdicts };
        proof {
            assert(slot.cells@ == self.board@.cells);
            assert forall|k: int| 0 <= k < BOARD_AREA implies (#[trigger] slot.verdicts@[k] == 1u8
                ==> renju_black_allowed(slot.cells@, k)) && (slot.verdicts@[k] == 2u8
                ==> !renju_black_allowed(slot.cells@, k)) by {
                if k != m as int && same {
                    assert(slot_sound(slots@[index as int]));
                    assert(slots@[index as int].cells@ == cells@);
                    assert(slot.verdicts@[k] == slots@[index as int].verdicts@[k]);
                }
            }
        }
        slots.set(index, slot);
        proof {
            assert forall|i: int| 0 <= i < slots@.len() implies slot_sound(#[trigger] slots@[i]) by {}
        }
        self.legality.replace(Some(slots));
        allowed
    }

    fn reply_candidates(&self, x: usize, y: usize) -> (cands: Vec<Move>)
        requires
            self.wf(),
            x < 15,
            y < 15,
        ensures
            cands@ == reply_cands(self.board@.cells, x as int, y as int),
    {
        let c1 = self.b4p_at(x, y, 1);
        let c2 = self.b4p_at(x, y, 2);
        let c3 = self.b4p_at(x, y, 3);
        let c4 = self.b4p_at(x, y, 4);
        let mut cands: Vec<Move> = Vec::new();
        push_line_cands_if(&mut cands, c1 >= 65536, x, y, 1, c1);
        assert(cands@ =~= two_cands(x as int, y as int, 1, c1 as int));
        push_line_cands_if(&mut cands, c2 >= 65536, x, y, 2, c2);
        push_line_cands_if(&mut cands, c3 >= 65536, x, y, 3, c3);
        push_line_cands_if(&mut cands, c4 >= 65536, x, y, 4, c4);
        push_line_cands_if(&mut cands, c1 != 0, x, y, 1, c1);
        push_line_cands_if(&mut cands, c2 != 0, x, y, 2, c2);
        push_line_cands_if(&mut cands, c3 != 0, x, y, 3, c3);
        push_line_cands_if(&mut cands, c4 != 0, x, y, 4, c4);
        cands
    }

    #[verifier::spinoff_prover]
    #[verifier::rlimit(40)]
    pub fn broken_four_legal_replies_for_side(&self, x: usize, y: usize, side: Side) -> (r:
        BrokenFourReplies)
        requires
            self.wf(),
            x < 15,
            y < 15,
        ensures
            r@ == legal_replies_spec(self.board@, self.rule(), x as int, y as int, side),
            forall|i: int|
                0 <= i < r@.len() ==> #[trigger] r@[i] < BOARD_AREA && rule_legal(
                    self.board@,
                    r@[i],
                    side,
                    self.rule(),
                ),
    {
        proof {
            lemma_replies_on_board(self.board@, self.rule(), x as int, y as int, side);
        }
        let cands = self.reply_candidates(x, y);
        let ghost bm = self.board@;
        let ghost rule = self.rule();
        let ghost keep = |m: Move| rule_legal(bm, m, side, rule);
        let mut replies = BrokenFourReplies::new();
        let mut k: usize = 0;
        while k < cands.len()
            invariant
                self.wf(),
                bm == self.board@,
                rule == self.rule(),
                keep == (|m: Move| rule_legal(bm, m, side, rule)),
                k <= cands@.len(),
                replies@ == collect_unique(cands@, keep, MAX_BROKEN_FOUR_REPLIES as int, k as int),
            decreases cands@.len() - k,
        {
            let m = cands[k];
            if self.rule_legal_cached(m, side) {
                replies.push_unique(m);
            }
            k = k + 1;
        }
        proof {
            let lr = legal_replies_spec(bm, rule, x as int, y as int, side);
            assert(replies@ == lr);
            assert forall|i: int| 0 <= i < replies@.len() implies #[trigger] replies@[i] < BOARD_AREA
                && rule_legal(bm, replies@[i], side, rule) by {
                assert(replies@[i] == lr[i]);
            }
        }
        replies
    }

    pub fn broken_four_legal_replies(&self, x: usize, y: usize) -> (r: BrokenFourReplies)
        requires
            self.wf(),
            x < 15,
            y < 15,
        ensures
            r@ == legal_replies_spec(self.board@, self.rule(), x as int, y as int, BLACK),
    {
        self.broken_four_legal_replies_for_side(x, y, BLACK)
    }

    pub fn broken_four_legal_reply(&self, x: usize, y: usize) -> (m: Option<Move>)
        requires
            self.wf(),
            x < 15,
            y < 15,
        ensures
            ({
                let r = legal_replies_spec(self.board@, self.rule(), x as int, y as int, BLACK);
                &&& r.len() == 0 ==> m.is_none()
                &&& r.len() > 0 ==> m == Some(r[0])
            }),
    {
        self.broken_four_legal_replies(x, y).first()
    }

    #[verifier::spinoff_prover]
    #[verifier::rlimit(40)]
    pub fn a3_gain_squares(&self, x: usize, y: usize) -> (gains: Vec<Move>)
        requires
            self.wf(),
            x < 15,
            y < 15,
        ensures
            gains@ == gains_spec(self.board@.cells, x as int, y as int),
            forall|i: int| 0 <= i < gains@.len() ==> gains@[i] < BOARD_AREA,
    {
        let mut cands: Vec<Move> = Vec::new();
        let c1 = self.a3_at(x, y, 1);
        push_line_cands(&mut cands, x, y, 1, c1);
        assert(cands@ =~= line_cands(x as int, y as int, 1, c1 as int));
        let c2 = self.a3_at(x, y, 2);
        push_line_cands(&mut cands, x, y, 2, c2);
        let c3 = self.a3_at(x, y, 3);
        push_line_cands(&mut cands, x, y, 3, c3);
        let c4 = self.a3_at(x, y, 4);
        push_line_cands(&mut cands, x, y, 4, c4);
        let ghost cells = self.board@.cells;
        assert(cands@ == gain_cands(cells, x as int, y as int));
        proof {
            lemma_cands_on_board(cells, x as int, y as int);
        }
        let ghost keep = |m: Move| true;
        let mut gains: Vec<Move> = Vec::new();
        let mut k: usize = 0;
        while k < cands.len()
            invariant
                k <= cands@.len(),
                cands@ == gain_cands(cells, x as int, y as int),
                forall|i: int| 0 <= i < cands@.len() ==> cands@[i] < BOARD_AREA,
                keep == (|m: Move| true),
                gains@ == collect_unique(cands@, keep, BOARD_AREA as int, k as int),
                forall|i: int| 0 <= i < gains@.len() ==> gains@[i] < BOARD_AREA,
            decreases cands@.len() - k,
        {
            push_unique_vec(&mut gains, cands[k], BOARD_AREA);
            k = k + 1;
        }
        gains
    }

    /// Empty points next to a stone of `side` that `side` may legally play.
    pub fn threat_moves(&self, side: Side) -> (moves: Vec<Move>)
        requires
            self.wf(),
        ensures
            moves@ == threat_moves_spec(self.board@, side, self.rule()),
            forall|i: int| 0 <= i < moves@.len() ==> rule_legal(self.board@, #[trigger] moves@[i], side, self.rule()),
    {
        let ghost bm = self.board@;
        let ghost rule = self.rule();
        let mut candidates: Vec<Move> = Vec::new();
        let mut k: usize = 0;
        while k < BOARD_AREA
            invariant
                self.wf(),
                bm == self.board@,
                rule == self.rule(),
                k <= BOARD_AREA,
                candidates@ == threat_moves_upto(bm, side, rule, k as int),
                forall|i: int| 0 <= i < candidates@.len() ==> rule_legal(bm, #[trigger] candidates@[i], side, rule),
            decreases BOARD_AREA - k,
        {
            let x = k / 15;
            let y = k % 15;
            if self.board.cell_value(x, y) == EMPTY && self.near_side(x, y, side) {
                let move_ = (y * 15 + x) as u16;
                if self.rule_legal_cached(move_, side) {
                    candidates.push(move_);
                }
            }
            k = k + 1;
        }
        candidates
    }

    fn near_side(&self, x: usize, y: usize, side: Side) -> (b: bool)
        requires
            self.wf(),
            x < 15,
            y < 15,
        ensures
            b == near_side(self.board@.cells, x as int, y as int, side),
    {
        let ghost cells = self.board@.cells;
        let mut k: usize = 0;
        while k < 16
            invariant
                self.wf(),
                cells == self.board@.cells,
                x < 15,
                y < 15,
                k <= 16,
                forall|j: int|
                    0 <= j < k ==> !(#[trigger] on_board(x + threat_dir(j).0, y + threat_dir(j).1)
                        && cells[(y + threat_dir(j).1) * 15 + x + threat_dir(j).0] == side),
            decreases 16 - k,
        {
            let (dx, dy) = threat_dir_exec(k);
            let xx = x as isize + dx;
            let yy = y as isize + dy;
            if xx >= 0 && yy >= 0 && xx < 15 && yy < 15 {
                if self.board.cell_value(xx as usize, yy as usize) == side {
                    assert(on_board(x + threat_dir(k as int).0, y + threat_dir(k as int).1));
                    return true;
                }
            }
            k = k + 1;
        }
        false
    }

    /// Whether a stone of `side` on the empty `(x, y)` makes five; the view is unchanged.
    pub fn a5test(&mut self, x: usize, y: usize, side: Side) -> (b: bool)
        requires
            old(self).wf(),
            x < 15,
            y < 15,
            valid_side(side),
        ensures
            final(self).wf(),
            final(self).board@ == old(self).board@,
            final(self).rule() == old(self).rule(),
            final(self).saved_sides() == old(self).saved_sides(),
            b == a5test_spec(old(self).board@, x as int, y as int, side),
    {
        let point = self.board.cell_value(x, y);
        if point == side {
            return self.has_a5(x, y);
        }
        if point != EMPTY {
            return false;
        }
        let move_ = (y * 15 + x) as u16;
        if !self.board.is_legal_move(move_) {
            return false;
        }
        self.play(move_, side);
        let result = self.has_a5(x, y);
        self.undo();
        proof {
            lemma_play_undo_restores(old(self).board@, move_, side, old(self).rule());
        }
        result
    }
}

fn threat_dir_exec(k: usize) -> (d: (isize, isize))
    requires
        k < 16,
    ensures
        d.0 == threat_dir(k as int).0,
        d.1 == threat_dir(k as int).1,
{
    if k == 0 {
        (-2, -2)
    } else if k == 1 {
        (-1, -1)
    } else if k == 2 {
        (2, 2)
    } else if k == 3 {
        (1, 1)
    } else if k == 4 {
        (-2, 2)
    } else if k == 5 {
        (-1, 1)
    } else if k == 6 {
        (2, -2)
    } else if k == 7 {
        (1, -1)
    } else if k == 8 {
        (2, 0)
    } else if k == 9 {
        (1, 0)
    } else if k == 10 {
        (0, 2)
    } else if k == 11 {
        (0, 1)
    } else if k == 12 {
        (-2, 0)
    } else if k == 13 {
        (-1, 0)
    } else if k == 14 {
        (0, -2)
    } else {
        (0, -1)
    }
}

proof fn lemma_b4_range(s: Seq<i32>, pi: int)
    ensures
        0 <= b4_spec(s, pi) <= 2,
{
    let p = pi + 2;
    let x0 = s[p] as int;
    if x0 != 0 {
        lemma_first_b4_range(s, p, crate::patterns::line::max2(p, 4), crate::patterns::line::min_to(p, 12), x0);
    }
}

proof fn lemma_first_b4_range(s: Seq<i32>, p: int, i: int, hi: int, x0: int)
    ensures
        0 <= crate::patterns::line::first_b4(s, p, i, hi, x0) <= 2,
    decreases hi + 1 - i,
{
    if i <= hi {
        lemma_first_b4_range(s, p, i + 1, hi, x0);
    }
}

proof fn lemma_line_cands_on_board(x: int, y: int, d: int, code: int)
    ensures
        forall|i: int|
            0 <= i < line_cands(x, y, d, code).len() ==> (#[trigger] line_cands(x, y, d, code)[i])
                < BOARD_AREA,
{
}

proof fn lemma_cands_on_board(cells: Seq<Side>, x: int, y: int)
    ensures
        forall|i: int|
            0 <= i < gain_cands(cells, x, y).len() ==> (#[trigger] gain_cands(cells, x, y)[i])
                < BOARD_AREA,
{
    lemma_line_cands_on_board(x, y, 1, a3code(cells, x, y, 1));
    lemma_line_cands_on_board(x, y, 2, a3code(cells, x, y, 2));
    lemma_line_cands_on_board(x, y, 3, a3code(cells, x, y, 3));
    lemma_line_cands_on_board(x, y, 4, a3code(cells, x, y, 4));
}


// ---------------------------------------------------------------------------
// Winning completions, broken-four points, threes and attack classification.
// ---------------------------------------------------------------------------

/// The `t`-th of the eight offsets (steps -4..-1, 1..4) along axis `a`.
pub open spec fn axis_step(a: int, t: int) -> (int, int) {
    let st = if t < 4 {
        t - 4
    } else {
        t - 3
    };
    if a == 0 {
        (st, 0)
    } else if a == 1 {
        (0, st)
    } else if a == 2 {
        (st, st)
    } else {
        (st, -st)
    }
}

pub open spec fn completion_point(x: int, y: int, j: int) -> (int, int) {
    (x + axis_step(j / 8, j % 8).0, y + axis_step(j / 8, j % 8).1)
}

/// Candidate `j` (axis `j / 8`) is an empty point where `side` wins at once.
pub open spec fn completion_pred(bm: BoardModel, rule: RuleSet, x: int, y: int, side: Side, j: int) -> bool {
    let (cx, cy) = completion_point(x, y, j);
    on_board(cx, cy) && bm.cells[cy * 15 + cx] == EMPTY && bm.legal((cy * 15 + cx) as Move)
        && wins_for_rule(bm.cells, cx, cy, side, rule)
}

pub open spec fn completions_upto(bm: BoardModel, rule: RuleSet, x: int, y: int, side: Side, j: int) -> Seq<Move>
    decreases j,
{
    if j <= 0 {
        Seq::empty()
    } else {
        let acc = completions_upto(bm, rule, x, y, side, j - 1);
        let (cx, cy) = completion_point(x, y, j - 1);
        let m = (cy * 15 + cx) as Move;
        if completion_pred(bm, rule, x, y, side, j - 1) && !acc.contains(m) {
            acc.push(m)
        } else {
            acc
        }
    }
}

/// The distinct empty points within four steps of `(x, y)` on its four lines
/// where `side` would win at once under `rule`.
#[verifier::opaque]
pub open spec fn completions_spec(bm: BoardModel, rule: RuleSet, x: int, y: int, side: Side) -> Seq<Move> {
    completions_upto(bm, rule, x, y, side, 32)
}

pub open spec fn winning_a4_spec(bm: BoardModel, rule: RuleSet, x: int, y: int) -> bool {
    has_a4_spec(bm.cells, x, y) && (rule != RuleSet::Renju || bm.cells[y * 15 + x] != BLACK
        || completions_spec(bm, rule, x, y, BLACK).len() >= 2)
}

pub open spec fn four_completion_spec(bm: BoardModel, rule: RuleSet, x: int, y: int) -> bool {
    rule != RuleSet::Renju || bm.cells[y * 15 + x] != BLACK || completions_spec(
        bm,
        rule,
        x,
        y,
        BLACK,
    ).len() > 0
}

/// The result of the broken-four scan over the stones of `side` from point
/// `k` on (column-major), having seen `first` so far.
pub open spec fn bfp_from(cells: Seq<Side>, side: Side, k: int, first: Option<Move>) -> (Option<Move>, bool)
    decreases 225 - k,
{
    if k >= 225 {
        (first, false)
    } else {
        let x = k / 15;
        let y = k % 15;
        let (reply, amb) = bfr_spec(cells, x, y);
        if cells[y * 15 + x] != side || reply.is_none() {
            bfp_from(cells, side, k + 1, first)
        } else if amb {
            (reply, true)
        } else if first.is_none() {
            bfp_from(cells, side, k + 1, reply)
        } else if reply != first {
            (reply, true)
        } else {
            bfp_from(cells, side, k + 1, first)
        }
    }
}

pub open spec fn blp_from(bm: BoardModel, rule: RuleSet, side: Side, k: int, first: Option<Move>) -> (Option<Move>, bool)
    decreases 225 - k,
{
    if k >= 225 {
        (first, false)
    } else {
        let x = k / 15;
        let y = k % 15;
        let replies = legal_replies_spec(bm, rule, x, y, side);
        if bm.cells[y * 15 + x] != side || replies.len() == 0 {
            blp_from(bm, rule, side, k + 1, first)
        } else if replies.len() > 1 {
            (Some(replies[0]), true)
        } else if first.is_none() {
            blp_from(bm, rule, side, k + 1, Some(replies[0]))
        } else if first != Some(replies[0]) {
            (Some(replies[0]), true)
        } else {
            blp_from(bm, rule, side, k + 1, first)
        }
    }
}

/// `side` has a five through `(x, y)`, or would have one by playing there.
pub open spec fn a5test_spec(bm: BoardModel, x: int, y: int, side: Side) -> bool {
    let m = (y * 15 + x) as Move;
    if bm.cells[y * 15 + x] == side {
        has_a5_spec(bm.cells, x, y)
    } else if bm.cells[y * 15 + x] != EMPTY || !bm.legal(m) {
        false
    } else {
        has_a5_spec(bm.cells.update(y * 15 + x, side), x, y)
    }
}

/// Direction `d` counts towards the real open threes of the stone on `(x, y)`:
/// it has an open three, and for black not every gain point makes five.
pub open spec fn a3r_dir(bm: BoardModel, rule: RuleSet, x: int, y: int, d: int) -> int {
    let side = bm.cells[y * 15 + x];
    let code = a3code(bm.cells, x, y, d);
    let cands = line_cands(x, y, d, code);
    if code <= 0 {
        0
    } else if side == BLACK && forall|i: int|
        0 <= i < cands.len() ==> a5test_spec(
            bm,
            (#[trigger] cands[i]) as int % 15,
            cands[i] as int / 15,
            side,
        ) {
        0
    } else {
        1
    }
}

#[verifier::opaque]
pub open spec fn a3r_count_spec(bm: BoardModel, rule: RuleSet, x: int, y: int) -> int {
    if bm.cells[y * 15 + x] == EMPTY {
        0
    } else {
        a3r_dir(bm, rule, x, y, 1) + a3r_dir(bm, rule, x, y, 2) + a3r_dir(bm, rule, x, y, 3)
            + a3r_dir(bm, rule, x, y, 4)
    }
}

pub open spec fn filter_moves(s: Seq<Move>, keep: spec_fn(Move) -> bool, k: int) -> Seq<Move>
    decreases k,
{
    if k <= 0 {
        Seq::empty()
    } else if keep(s[k - 1]) {
        filter_moves(s, keep, k - 1).push(s[k - 1])
    } else {
        filter_moves(s, keep, k - 1)
    }
}

pub open spec fn filter_all(s: Seq<Move>, keep: spec_fn(Move) -> bool) -> Seq<Move> {
    filter_moves(s, keep, s.len() as int)
}

/// Playing the gain `g` gives `attacker` an immediate five or an open four
/// with two legal completions.
pub open spec fn gain_real(bm: BoardModel, rule: RuleSet, g: Move, attacker: Side) -> bool {
    let bm2 = view_after_play(bm, g, attacker, rule);
    rule_legal(bm, g, attacker, rule) && (bm2.winner == attacker || completions_spec(
        bm2,
        rule,
        (g % 15) as int,
        (g / 15) as int,
        attacker,
    ).len() >= 2)
}

/// The threat level and defences of the attacker stone just played on `(x, y)`.
#[verifier::opaque]
pub open spec fn attack_spec(bm: BoardModel, rule: RuleSet, x: int, y: int, attacker: Side) -> Option<(ThreatLevel, Seq<Move>)> {
    if bm.winner == attacker {
        Some((ThreatLevel::WIN5, Seq::empty()))
    } else if rule == RuleSet::Freestyle {
        let (reply, amb) = bfr_spec(bm.cells, x, y);
        let legal_gains = filter_all(gains_spec(bm.cells, x, y), |g: Move| bm.legal(g));
        if has_a4_spec(bm.cells, x, y) || amb {
            Some((ThreatLevel::A4, Seq::empty()))
        } else if reply.is_some() {
            if bm.legal(reply.unwrap()) {
                Some((ThreatLevel::B4, seq![reply.unwrap()]))
            } else {
                Some((ThreatLevel::A4, Seq::empty()))
            }
        } else if legal_gains.len() > 0 {
            Some((ThreatLevel::A3, legal_gains))
        } else {
            None
        }
    } else {
        let completions = completions_spec(bm, rule, x, y, attacker);
        let gains = gains_spec(bm.cells, x, y);
        if completions.len() == 0 {
            if exists|i: int| 0 <= i < gains.len() && gain_real(bm, rule, #[trigger] gains[i], attacker) {
                Some((ThreatLevel::A3, filter_all(gains, |g: Move| rule_legal(bm, g, -attacker as i8, rule))))
            } else {
                None
            }
        } else if completions.len() == 1 {
            if rule_legal(bm, completions[0], -attacker as i8, rule) {
                Some((ThreatLevel::B4, seq![completions[0]]))
            } else {
                Some((ThreatLevel::A4, Seq::empty()))
            }
        } else {
            Some((ThreatLevel::A4, Seq::empty()))
        }
    }
}

impl ThreatBoardView {
    fn completion_step(x: usize, y: usize, j: usize) -> (r: (isize, isize))
        requires
            x < 15,
            y < 15,
            j < 32,
        ensures
            r.0 == completion_point(x as int, y as int, j as int).0,
            r.1 == completion_point(x as int, y as int, j as int).1,
    {
        let a = j / 8;
        let t = j % 8;
        let st: isize = if t < 4 {
            t as isize - 4
        } else {
            t as isize - 3
        };
        let xi = x as isize;
        let yi = y as isize;
        if a == 0 {
            (xi + st, yi)
        } else if a == 1 {
            (xi, yi + st)
        } else if a == 2 {
            (xi + st, yi + st)
        } else {
            (xi + st, yi - st)
        }
    }

    /// Empty points near `(x, y)` on its lines where `side` wins at once.
    fn legal_win_completions(&self, x: usize, y: usize, side: Side) -> (wins: Vec<Move>)
        requires
            self.wf(),
            x < 15,
            y < 15,
        ensures
            wins@ == completions_spec(self.board@, self.rule(), x as int, y as int, side),
            forall|i: int| 0 <= i < wins@.len() ==> #[trigger] wins@[i] < BOARD_AREA,
    {
        proof {
            reveal(completions_spec);
        }
        let ghost bm = self.board@;
        let mut wins: Vec<Move> = Vec::new();
        let mut j: usize = 0;
        while j < 32
            invariant
                self.wf(),
                bm == self.board@,
                x < 15,
                y < 15,
                j <= 32,
                wins@ == completions_upto(bm, self.rule(), x as int, y as int, side, j as int),
                forall|i: int| 0 <= i < wins@.len() ==> #[trigger] wins@[i] < BOARD_AREA,
            decreases 32 - j,
        {
            let (cx, cy) = Self::completion_step(x, y, j);
            if cx >= 0 && cy >= 0 && cx < 15 && cy < 15 {
                let cxu = cx as usize;
                let cyu = cy as usize;
                let candidate = (cyu * 15 + cxu) as u16;
                if self.board.cell_value(cxu, cyu) == EMPTY && !vec_contains(&wins, candidate)
                    && self.board.is_legal_move(candidate) && self.board.is_winning_move_for_rule(
                    cxu,
                    cyu,
                    side,
                    self.rule_set,
                ) {
                    wins.push(candidate);
                }
            }
            j = j + 1;
        }
        wins
    }

    /// The open four through `(x, y)` wins: for Renju black it needs two legal completions.
    pub fn has_winning_a4(&self, x: usize, y: usize) -> (b: bool)
        requires
            self.wf(),
            x < 15,
            y < 15,
        ensures
            b == winning_a4_spec(self.board@, self.rule(), x as int, y as int),
    {
        if !self.has_a4(x, y) {
            return false;
        }
        if !matches!(self.rule_set, RuleSet::Renju) || self.board.cell_value(x, y) != BLACK {
            return true;
        }
        self.legal_win_completions(x, y, BLACK).len() >= 2
    }

    /// The four(s) through `(x, y)` can be completed legally by their owner.
    pub fn four_has_rule_legal_completion(&self, x: usize, y: usize) -> (b: bool)
        requires
            self.wf(),
            x < 15,
            y < 15,
        ensures
            b == four_completion_spec(self.board@, self.rule(), x as int, y as int),
    {
        let side = self.board.cell_value(x, y);
        if !matches!(self.rule_set, RuleSet::Renju) || side != BLACK {
            return true;
        }
        self.legal_win_completions(x, y, BLACK).len() > 0
    }

    #[verifier::spinoff_prover]
    #[verifier::rlimit(40)]
    pub fn broken_four_point_for_side(&self, side: Side) -> (r: (Option<Move>, bool))
        requires
            self.wf(),
        ensures
            self.rule() == RuleSet::Freestyle ==> r == bfp_from(self.board@.cells, side, 0, None),
            self.rule() != RuleSet::Freestyle ==> r == blp_from(self.board@, self.rule(), side, 0, None),
            r.0 matches Some(m) ==> m < BOARD_AREA,
    {
        if !matches!(self.rule_set, RuleSet::Freestyle) {
            return self.broken_four_legal_point_for_side(side);
        }
        let ghost cells = self.board@.cells;
        let mut first_reply: Option<Move> = None;
        let mut k: usize = 0;
        while k < BOARD_AREA
            invariant
                self.wf(),
                cells == self.board@.cells,
                self.rule() == RuleSet::Freestyle,
                k <= BOARD_AREA,
                bfp_from(cells, side, 0, None) == bfp_from(cells, side, k as int, first_reply),
                first_reply matches Some(m) ==> m < BOARD_AREA,
            decreases BOARD_AREA - k,
        {
            let x = k / 15;
            let y = k % 15;
            if self.board.cell_value(x, y) == side {
                let (reply, local_ambiguous) = self.broken_four_reply_with_ambiguity(x, y);
                if reply.is_some() {
                    if local_ambiguous {
                        return (reply, true);
                    }
                    if first_reply.is_none() {
                        first_reply = reply;
                    } else if !option_move_eq(reply, first_reply) {
                        return (reply, true);
                    }
                }
            }
            k = k + 1;
        }
        (first_reply, false)
    }

    pub fn broken_four_legal_point_for_side(&self, side: Side) -> (r: (Option<Move>, bool))
        requires
            self.wf(),
        ensures
            r == blp_from(self.board@, self.rule(), side, 0, None),
            r.0 matches Some(m) ==> m < BOARD_AREA,
    {
        let ghost bm = self.board@;
        let mut first_reply: Option<Move> = None;
        let mut k: usize = 0;
        while k < BOARD_AREA
            invariant
                self.wf(),
                bm == self.board@,
                k <= BOARD_AREA,
                blp_from(bm, self.rule(), side, 0, None) == blp_from(bm, self.rule(), side, k as int, first_reply),
                first_reply matches Some(m) ==> m < BOARD_AREA,
            decreases BOARD_AREA - k,
        {
            let x = k / 15;
            let y = k % 15;
            if self.board.cell_value(x, y) == side {
                let replies = self.broken_four_legal_replies_for_side(x, y, side);
                proof {
                    lemma_replies_on_board(bm, self.rule(), x as int, y as int, side);
                }
                match replies.first() {
                    Some(reply) => {
                        if replies.len() > 1 {
                            return (Some(reply), true);
                        }
                        match first_reply {
                            None => {
                                first_reply = Some(reply);
                            },
                            Some(f) => {
                                if f != reply {
                                    return (Some(reply), true);
                                }
                            },
                        }
                    },
                    None => {},
                }
            }
            k = k + 1;
        }
        (first_reply, false)
    }
}

fn option_move_eq(a: Option<Move>, b: Option<Move>) -> (r: bool)
    ensures
        r == (a == b),
{
    match (a, b) {
        (Some(x), Some(y)) => x == y,
        (None, None) => true,
        _ => false,
    }
}

fn vec_contains(v: &Vec<Move>, m: Move) -> (r: bool)
    ensures
        r == v@.contains(m),
{
    let mut i: usize = 0;
    while i < v.len()
        invariant
            i <= v@.len(),
            forall|j: int| 0 <= j < i ==> v@[j] != m,
        decreases v@.len() - i,
    {
        if v[i] == m {
            assert(v@[i as int] == m);
            return true;
        }
        i = i + 1;
    }
    false
}

proof fn lemma_replies_on_board(bm: BoardModel, rule: RuleSet, x: int, y: int, side: Side)
    ensures
        forall|i: int|
            0 <= i < legal_replies_spec(bm, rule, x, y, side).len() ==> (
            #[trigger] legal_replies_spec(bm, rule, x, y, side)[i]) < BOARD_AREA && rule_legal(
                bm,
                legal_replies_spec(bm, rule, x, y, side)[i],
                side,
                rule,
            ),
{
    let cands = reply_cands(bm.cells, x, y);
    lemma_reply_cands_on_board(bm.cells, x, y);
    lemma_collect_unique_members(
        cands,
        |m: Move| rule_legal(bm, m, side, rule),
        MAX_BROKEN_FOUR_REPLIES as int,
        cands.len() as int,
    );
}

proof fn lemma_reply_cands_on_board(cells: Seq<Side>, x: int, y: int)
    ensures
        forall|i: int| 0 <= i < reply_cands(cells, x, y).len() ==> (#[trigger] reply_cands(cells, x, y)[i]) < BOARD_AREA,
{
    let c1 = bcode(cells, x, y, 1);
    let c2 = bcode(cells, x, y, 2);
    let c3 = bcode(cells, x, y, 3);
    let c4 = bcode(cells, x, y, 4);
    lemma_line_cands_on_board(x, y, 1, c1);
    lemma_line_cands_on_board(x, y, 2, c2);
    lemma_line_cands_on_board(x, y, 3, c3);
    lemma_line_cands_on_board(x, y, 4, c4);
}

/// Every collected move is one of the candidates that passes `keep`.
proof fn lemma_collect_unique_members(cands: Seq<Move>, keep: spec_fn(Move) -> bool, cap: int, k: int)
    requires
        0 <= k <= cands.len(),
    ensures
        forall|i: int|
            0 <= i < collect_unique(cands, keep, cap, k).len() ==> cands.contains(
                #[trigger] collect_unique(cands, keep, cap, k)[i],
            ) && keep(collect_unique(cands, keep, cap, k)[i]),
    decreases k,
{
    if k > 0 {
        lemma_collect_unique_members(cands, keep, cap, k - 1);
        let acc = collect_unique(cands, keep, cap, k - 1);
        let r = collect_unique(cands, keep, cap, k);
        assert forall|i: int| 0 <= i < r.len() implies cands.contains(#[trigger] r[i]) && keep(r[i]) by {
            if i < acc.len() {
                assert(r[i] == acc[i]);
            } else {
                assert(r[i] == cands[k - 1]);
            }
        }
    }
}

pub open spec fn a3r_prefix(bm: BoardModel, rule: RuleSet, x: int, y: int, k: int) -> int
    decreases k,
{
    if k <= 0 {
        0
    } else {
        a3r_prefix(bm, rule, x, y, k - 1) + a3r_dir(bm, rule, x, y, k)
    }
}

/// `r` is the attack described by `s` for the stone played as `move_`.
pub open spec fn attack_result(r: Option<AttackMove>, move_: Move, s: Option<(ThreatLevel, Seq<Move>)>) -> bool {
    match s {
        None => r.is_none(),
        Some((level, defenses)) => r matches Some(a) && a.move_ == move_ && a.level == level
            && a.defenses@ == defenses,
    }
}

/// The defences of the attack `r`, if any, are board points.
pub open spec fn defenses_on_board(r: Option<AttackMove>) -> bool {
    r matches Some(a) ==> forall|i: int| 0 <= i < a.defenses@.len() ==> #[trigger] a.defenses@[i] < BOARD_AREA
}

fn attack(move_: Move, level: ThreatLevel, defenses: Vec<Move>) -> (r: Option<AttackMove>)
    ensures
        attack_result(r, move_, Some((level, defenses@))),
        r == Some(AttackMove { move_, level, defenses }),
{
    Some(AttackMove { move_, level, defenses })
}

fn single(m: Move) -> (v: Vec<Move>)
    ensures
        v@ == seq![m],
{
    let mut v: Vec<Move> = Vec::new();
    v.push(m);
    v
}

impl ThreatBoardView {
    /// The real open threes through the stone on `(x, y)`: a black three
    /// whose every gain point already makes five is not counted.
    pub fn a3r_count(&mut self, x: usize, y: usize) -> (n: i32)
        requires
            old(self).wf(),
            x < 15,
            y < 15,
        ensures
            final(self).wf(),
            final(self).board@ == old(self).board@,
            final(self).rule() == old(self).rule(),
            final(self).saved_sides() == old(self).saved_sides(),
            n == a3r_count_spec(old(self).board@, old(self).rule(), x as int, y as int),
            0 <= n <= 4,
    {
        proof {
            reveal(a3r_count_spec);
        }
        let point = self.board.cell_value(x, y);
        if point == EMPTY {
            return 0;
        }
        let ghost bm = self.board@;
        let ghost rule = self.rule();
        let ghost saved = self.saved_sides();
        assert(valid_cell(bm.cells[y * 15 + x]));
        let mut count: i32 = 0;
        let mut d: usize = 1;
        while d <= 4
            invariant
                self.wf(),
                self.board@ == bm,
                self.rule() == rule,
                self.saved_sides() == saved,
                x < 15,
                y < 15,
                1 <= d <= 5,
                point == bm.cells[y * 15 + x],
                valid_side(point),
                count == a3r_prefix(bm, rule, x as int, y as int, d - 1),
                0 <= count < d,
            decreases 5 - d,
        {
            let code = self.a3_at(x, y, d);
            if code > 0 {
                let mut cands: Vec<Move> = Vec::new();
                push_line_cands(&mut cands, x, y, d, code);
                assert(cands@ =~= line_cands(x as int, y as int, d as int, code as int));
                proof {
                    lemma_line_cands_on_board(x as int, y as int, d as int, code as int);
                }
                let mut penalty = true;
                let mut i: usize = 0;
                while i < cands.len()
                    invariant
                        self.wf(),
                        self.board@ == bm,
                        self.rule() == rule,
                        self.saved_sides() == saved,
                        valid_side(point),
                        i <= cands@.len(),
                        forall|j: int| 0 <= j < cands@.len() ==> #[trigger] cands@[j] < BOARD_AREA,
                        penalty == forall|j: int|
                            0 <= j < i ==> (point == BLACK && a5test_spec(
                                bm,
                                (#[trigger] cands@[j]) as int % 15,
                                cands@[j] as int / 15,
                                point,
                            )),
                    decreases cands@.len() - i,
                {
                    let m = cands[i];
                    let mx = (m % 15) as usize;
                    let my = (m / 15) as usize;
                    if !(point == BLACK && self.a5test(mx, my, point)) {
                        penalty = false;
                    }
                    i = i + 1;
                }
                if !(penalty && point == BLACK) {
                    count = count + 1;
                }
            }
            d = d + 1;
        }
        assert(a3r_prefix(bm, rule, x as int, y as int, 4) == a3r_dir(bm, rule, x as int, y as int, 1)
            + a3r_dir(bm, rule, x as int, y as int, 2) + a3r_dir(bm, rule, x as int, y as int, 3)
            + a3r_dir(bm, rule, x as int, y as int, 4)) by {
            reveal_with_fuel(a3r_prefix, 5);
        }
        count
    }

    pub fn is_double3r(&mut self, x: usize, y: usize) -> (b: bool)
        requires
            old(self).wf(),
            x < 15,
            y < 15,
        ensures
            final(self).wf(),
            final(self).board@ == old(self).board@,
            final(self).rule() == old(self).rule(),
            final(self).saved_sides() == old(self).saved_sides(),
            b == (a3r_count_spec(old(self).board@, old(self).rule(), x as int, y as int) >= 2),
    {
        self.a3r_count(x, y) >= 2
    }
}

impl ThreatBoardView {
    /// Classifies the attacker stone just played on `(x, y)` as `move_`.
    pub fn classify_attack_at(&mut self, x: usize, y: usize, attacker: Side, move_: Move) -> (r:
        Option<AttackMove>)
        requires
            old(self).wf(),
            x < 15,
            y < 15,
            valid_side(attacker),
        ensures
            final(self).wf(),
            final(self).board@ == old(self).board@,
            final(self).rule() == old(self).rule(),
            final(self).saved_sides() == old(self).saved_sides(),
            attack_result(
                r,
                move_,
                attack_spec(old(self).board@, old(self).rule(), x as int, y as int, attacker),
            ),
            defenses_on_board(r),
    {
        if matches!(self.rule_set, RuleSet::Freestyle) {
            self.classify_attack_at_freestyle(x, y, attacker, move_)
        } else {
            self.classify_attack_at_renju(x, y, attacker, move_)
        }
    }

    fn classify_attack_at_freestyle(&self, x: usize, y: usize, attacker: Side, move_: Move) -> (r:
        Option<AttackMove>)
        requires
            self.wf(),
            x < 15,
            y < 15,
            self.rule() == RuleSet::Freestyle,
        ensures
            attack_result(r, move_, attack_spec(self.board@, self.rule(), x as int, y as int, attacker)),
            defenses_on_board(r),
    {
        proof {
            reveal(attack_spec);
        }
        if self.board.winner() == attacker {
            return attack(move_, ThreatLevel::WIN5, Vec::new());
        }
        if self.has_a4(x, y) {
            return attack(move_, ThreatLevel::A4, Vec::new());
        }
        let (reply, ambiguous) = self.broken_four_reply_with_ambiguity(x, y);
        if ambiguous {
            return attack(move_, ThreatLevel::A4, Vec::new());
        }
        if let Some(reply) = reply {
            if self.board.is_legal_move(reply) {
                return attack(move_, ThreatLevel::B4, single(reply));
            }
            return attack(move_, ThreatLevel::A4, Vec::new());
        }
        let gains = self.a3_gain_squares(x, y);
        let ghost bm = self.board@;
        let ghost keep = |g: Move| bm.legal(g);
        let mut legal: Vec<Move> = Vec::new();
        let mut i: usize = 0;
        while i < gains.len()
            invariant
                self.wf(),
                bm == self.board@,
                keep == (|g: Move| bm.legal(g)),
                i <= gains@.len(),
                legal@ == filter_moves(gains@, keep, i as int),
                forall|j: int| 0 <= j < gains@.len() ==> #[trigger] gains@[j] < BOARD_AREA,
                forall|j: int| 0 <= j < legal@.len() ==> #[trigger] legal@[j] < BOARD_AREA,
            decreases gains@.len() - i,
        {
            if self.board.is_legal_move(gains[i]) {
                legal.push(gains[i]);
            }
            i = i + 1;
        }
        if legal.len() > 0 {
            return attack(move_, ThreatLevel::A3, legal);
        }
        None
    }

    fn classify_attack_at_renju(&mut self, x: usize, y: usize, attacker: Side, move_: Move) -> (r:
        Option<AttackMove>)
        requires
            old(self).wf(),
            x < 15,
            y < 15,
            valid_side(attacker),
            old(self).rule() != RuleSet::Freestyle,
        ensures
            final(self).wf(),
            final(self).board@ == old(self).board@,
            final(self).rule() == old(self).rule(),
            final(self).saved_sides() == old(self).saved_sides(),
            attack_result(
                r,
                move_,
                attack_spec(old(self).board@, old(self).rule(), x as int, y as int, attacker),
            ),
            defenses_on_board(r),
    {
        proof {
            reveal(attack_spec);
        }
        let defender: Side = -attacker;
        if self.board.winner() == attacker {
            return attack(move_, ThreatLevel::WIN5, Vec::new());
        }
        let ghost bm = self.board@;
        let ghost rule = self.rule();
        let ghost saved = self.saved_sides();
        let completions = self.legal_win_completions(x, y, attacker);
        if completions.len() == 0 {
            let gains = self.a3_gain_squares(x, y);
            let mut has_real_threat = false;
            let mut i: usize = 0;
            while i < gains.len() && !has_real_threat
                invariant
                    self.wf(),
                    self.board@ == bm,
                    self.rule() == rule,
                    self.saved_sides() == saved,
                    valid_side(attacker),
                    i <= gains@.len(),
                    has_real_threat == exists|j: int|
                        0 <= j < i && gain_real(bm, rule, #[trigger] gains@[j], attacker),
                decreases gains@.len() - i,
            {
                if self.gain_creates_open_four(gains[i], attacker) {
                    has_real_threat = true;
                    assert(gain_real(bm, rule, gains@[i as int], attacker));
                }
                i = i + 1;
            }
            if !has_real_threat {
                return None;
            }
            let ghost keep = |g: Move| rule_legal(bm, g, -attacker as i8, rule);
            let mut defenses: Vec<Move> = Vec::new();
            let mut k: usize = 0;
            while k < gains.len()
                invariant
                    self.wf(),
                    self.board@ == bm,
                    self.rule() == rule,
                    self.saved_sides() == saved,
                    defender == -attacker,
                    keep == (|g: Move| rule_legal(bm, g, -attacker as i8, rule)),
                    k <= gains@.len(),
                    defenses@ == filter_moves(gains@, keep, k as int),
                    forall|j: int| 0 <= j < gains@.len() ==> #[trigger] gains@[j] < BOARD_AREA,
                    forall|j: int| 0 <= j < defenses@.len() ==> #[trigger] defenses@[j] < BOARD_AREA,
                decreases gains@.len() - k,
            {
                if self.rule_legal_cached(gains[k], defender) {
                    defenses.push(gains[k]);
                }
                k = k + 1;
            }
            attack(move_, ThreatLevel::A3, defenses)
        } else if completions.len() == 1 {
            let completion = completions[0];
            if self.rule_legal_cached(completion, defender) {
                attack(move_, ThreatLevel::B4, single(completion))
            } else {
                attack(move_, ThreatLevel::A4, Vec::new())
            }
        } else {
            attack(move_, ThreatLevel::A4, Vec::new())
        }
    }

    /// Playing `gain` is legal for `attacker` and gives an immediate five or an
    /// open four with two legal completions.
    fn gain_creates_open_four(&mut self, gain: Move, attacker: Side) -> (b: bool)
        requires
            old(self).wf(),
            valid_side(attacker),
        ensures
            final(self).wf(),
            final(self).board@ == old(self).board@,
            final(self).rule() == old(self).rule(),
            final(self).saved_sides() == old(self).saved_sides(),
            b == gain_real(old(self).board@, old(self).rule(), gain, attacker),
    {
        if !self.rule_legal_cached(gain, attacker) {
            return false;
        }
        let ghost bm = self.board@;
        let ghost saved = self.saved_sides();
        proof {
            reveal(rule_legal);
        }
        self.play(gain, attacker);
        let gx = (gain % 15) as usize;
        let gy = (gain / 15) as usize;
        let escalates = self.board.winner() == attacker || self.legal_win_completions(gx, gy, attacker).len()
            >= 2;
        self.undo();
        proof {
            lemma_play_undo_restores(bm, gain, attacker, self.rule());
            assert(self.saved_sides() =~= saved);
        }
        escalates
    }
}

/// The attack `attacker` makes by playing `m`.
pub open spec fn attack_of(bm: BoardModel, rule: RuleSet, attacker: Side, m: Move) -> Option<(ThreatLevel, Seq<Move>)> {
    attack_spec(view_after_play(bm, m, attacker, rule), rule, m as int % 15, m as int / 15, attacker)
}

/// The attacks of level `level` among the first `k` of `moves`, in order.
pub open spec fn attacks_at_level(
    bm: BoardModel,
    rule: RuleSet,
    attacker: Side,
    moves: Seq<Move>,
    level: ThreatLevel,
    k: int,
) -> Seq<(Move, ThreatLevel, Seq<Move>)>
    decreases k,
{
    if k <= 0 {
        Seq::empty()
    } else {
        let acc = attacks_at_level(bm, rule, attacker, moves, level, k - 1);
        match attack_of(bm, rule, attacker, moves[k - 1]) {
            Some((l, d)) => if l == level {
                acc.push((moves[k - 1], l, d))
            } else {
                acc
            },
            None => acc,
        }
    }
}

/// The attacks of `attacker`'s threat moves, the strongest level first and in
/// move order within a level.
pub open spec fn collected_attacks_spec(bm: BoardModel, rule: RuleSet, attacker: Side) -> Seq<
    (Move, ThreatLevel, Seq<Move>),
> {
    let moves = threat_moves_spec(bm, attacker, rule);
    let n = moves.len() as int;
    attacks_at_level(bm, rule, attacker, moves, ThreatLevel::WIN5, n) + attacks_at_level(
        bm,
        rule,
        attacker,
        moves,
        ThreatLevel::A4,
        n,
    ) + attacks_at_level(bm, rule, attacker, moves, ThreatLevel::B4, n) + attacks_at_level(
        bm,
        rule,
        attacker,
        moves,
        ThreatLevel::A3,
        n,
    )
}

/// The attack's move is rule-legal for `attacker` and its defences are board points.
pub open spec fn attack_playable(a: AttackMove, bm: BoardModel, attacker: Side, rule: RuleSet) -> bool {
    rule_legal(bm, a.move_, attacker, rule) && defenses_on_board(Some(a))
}

pub open spec fn attack_view(a: AttackMove) -> (Move, ThreatLevel, Seq<Move>) {
    (a.move_, a.level, a.defenses@)
}

pub open spec fn attack_views(s: Seq<AttackMove>) -> Seq<(Move, ThreatLevel, Seq<Move>)> {
    s.map_values(|a: AttackMove| attack_view(a))
}

proof fn lemma_views_push(s: Seq<AttackMove>, a: AttackMove)
    ensures
        attack_views(s.push(a)) == attack_views(s).push(attack_view(a)),
{
    assert(attack_views(s.push(a)) =~= attack_views(s).push(attack_view(a)));
}

proof fn lemma_views_concat(s: Seq<AttackMove>, t: Seq<AttackMove>)
    ensures
        attack_views(s + t) == attack_views(s) + attack_views(t),
{
    assert(attack_views(s + t) =~= attack_views(s) + attack_views(t));
}

/// Playing `m` gives `side` a five or an open four through `m`.
pub open spec fn win_threat(bm: BoardModel, rule: RuleSet, side: Side, m: Move) -> bool {
    let bm2 = view_after_play(bm, m, side, rule);
    bm2.winner == side || has_a4_spec(bm2.cells, m as int % 15, m as int / 15)
}

/// Playing `m` makes a four that must be answered and that `side` can complete legally.
pub open spec fn forcing_threat(bm: BoardModel, rule: RuleSet, side: Side, m: Move) -> bool {
    let bm2 = view_after_play(bm, m, side, rule);
    bfr_spec(bm2.cells, m as int % 15, m as int / 15).0.is_some() && four_completion_spec(
        bm2,
        rule,
        m as int % 15,
        m as int / 15,
    )
}

pub open spec fn winning_threats_spec(bm: BoardModel, rule: RuleSet, side: Side) -> Seq<Move> {
    filter_all(threat_moves_spec(bm, side, rule), |m: Move| win_threat(bm, rule, side, m))
}

pub open spec fn forcing_threats_spec(bm: BoardModel, rule: RuleSet, side: Side) -> Seq<Move> {
    filter_all(threat_moves_spec(bm, side, rule), |m: Move| forcing_threat(bm, rule, side, m))
}

/// Playing `m` is legal for `side` and gives a five, a winning open four, a
/// completable four, or two real open threes.
pub open spec fn vct_pred(bm: BoardModel, rule: RuleSet, side: Side, m: Move) -> bool {
    let bm2 = view_after_play(bm, m, side, rule);
    let x = m as int % 15;
    let y = m as int / 15;
    rule_legal(bm, m, side, rule) && (bm2.winner == side || winning_a4_spec(bm2, rule, x, y) || (
    b4_count_spec(bm2.cells, x, y) >= 1 && four_completion_spec(bm2, rule, x, y))
        || a3r_count_spec(bm2, rule, x, y) >= 2)
}

pub open spec fn vct_trigger_spec(bm: BoardModel, rule: RuleSet, side: Side) -> bool {
    let moves = threat_moves_spec(bm, side, rule);
    exists|i: int| 0 <= i < moves.len() && vct_pred(bm, rule, side, #[trigger] moves[i])
}

impl ThreatBoardView {
    /// Every threat move of `attacker` with its classified attack, strongest
    /// level first (stable within a level).
    pub fn collect_attack_moves(&mut self, attacker: Side) -> (attacks: Vec<AttackMove>)
        requires
            old(self).wf(),
            valid_side(attacker),
        ensures
            final(self).wf(),
            final(self).board@ == old(self).board@,
            final(self).rule() == old(self).rule(),
            final(self).saved_sides() == old(self).saved_sides(),
            attack_views(attacks@) == collected_attacks_spec(old(self).board@, old(self).rule(), attacker),
            forall|i: int|
                0 <= i < attacks@.len() ==> attack_playable(
                    #[trigger] attacks@[i],
                    old(self).board@,
                    attacker,
                    old(self).rule(),
                ),
    {
        let ghost bm = self.board@;
        let ghost rule = self.rule();
        let ghost saved = self.saved_sides();
        let moves = self.threat_moves(attacker);
        let mut win5: Vec<AttackMove> = Vec::new();
        let mut a4: Vec<AttackMove> = Vec::new();
        let mut b4: Vec<AttackMove> = Vec::new();
        let mut a3: Vec<AttackMove> = Vec::new();
        assert(attack_views(win5@) =~= Seq::empty());
        assert(attack_views(a4@) =~= Seq::empty());
        assert(attack_views(b4@) =~= Seq::empty());
        assert(attack_views(a3@) =~= Seq::empty());
        let mut i: usize = 0;
        while i < moves.len()
            invariant
                self.wf(),
                self.board@ == bm,
                self.rule() == rule,
                self.saved_sides() == saved,
                valid_side(attacker),
                i <= moves@.len(),
                moves@ == threat_moves_spec(bm, attacker, rule),
                forall|j: int| 0 <= j < moves@.len() ==> rule_legal(bm, #[trigger] moves@[j], attacker, rule),
                attack_views(win5@) == attacks_at_level(bm, rule, attacker, moves@, ThreatLevel::WIN5, i as int),
                attack_views(a4@) == attacks_at_level(bm, rule, attacker, moves@, ThreatLevel::A4, i as int),
                attack_views(b4@) == attacks_at_level(bm, rule, attacker, moves@, ThreatLevel::B4, i as int),
                attack_views(a3@) == attacks_at_level(bm, rule, attacker, moves@, ThreatLevel::A3, i as int),
                forall|j: int| 0 <= j < win5@.len() ==> attack_playable(#[trigger] win5@[j], bm, attacker, rule),
                forall|j: int| 0 <= j < a4@.len() ==> attack_playable(#[trigger] a4@[j], bm, attacker, rule),
                forall|j: int| 0 <= j < b4@.len() ==> attack_playable(#[trigger] b4@[j], bm, attacker, rule),
                forall|j: int| 0 <= j < a3@.len() ==> attack_playable(#[trigger] a3@[j], bm, attacker, rule),
            decreases moves@.len() - i,
        {
            let m = moves[i];
            proof {
                assert(rule_legal(bm, moves@[i as int], attacker, rule));
                reveal(rule_legal);
            }
            self.play(m, attacker);
            let x = (m % 15) as usize;
            let y = (m / 15) as usize;
            let found = self.classify_attack_at(x, y, attacker, m);
            self.undo();
            proof {
                lemma_play_undo_restores(bm, m, attacker, rule);
                assert(self.saved_sides() =~= saved);
            }
            match found {
                Some(a) => {
                    proof {
                        lemma_views_push(win5@, a);
                        lemma_views_push(a4@, a);
                        lemma_views_push(b4@, a);
                        lemma_views_push(a3@, a);
                    }
                    match a.level {
                        ThreatLevel::WIN5 => win5.push(a),
                        ThreatLevel::A4 => a4.push(a),
                        ThreatLevel::B4 => b4.push(a),
                        ThreatLevel::A3 => a3.push(a),
                    }
                },
                None => {},
            }
            i = i + 1;
        }
        proof {
            lemma_views_concat(win5@, a4@);
            lemma_views_concat(win5@ + a4@, b4@);
            lemma_views_concat(win5@ + a4@ + b4@, a3@);
        }
        let ghost (w, f, b, t) = (win5@, a4@, b4@, a3@);
        win5.append(&mut a4);
        win5.append(&mut b4);
        win5.append(&mut a3);
        assert(win5@ == w + f + b + t);
        assert forall|i: int| 0 <= i < win5@.len() implies attack_playable(
            #[trigger] win5@[i],
            bm,
            attacker,
            rule,
        ) by {
            if i < w.len() {
                assert(win5@[i] == w[i]);
            } else if i < w.len() + f.len() {
                assert(win5@[i] == f[i - w.len()]);
            } else if i < w.len() + f.len() + b.len() {
                assert(win5@[i] == b[i - w.len() - f.len()]);
            } else {
                assert(win5@[i] == t[i - w.len() - f.len() - b.len()]);
            }
        }
        win5
    }

    /// Threat moves after which `side` has a five or an open four.
    pub fn winning_threat_moves(&mut self, side: Side) -> (wins: Vec<Move>)
        requires
            old(self).wf(),
            valid_side(side),
        ensures
            final(self).wf(),
            final(self).board@ == old(self).board@,
            final(self).rule() == old(self).rule(),
            final(self).saved_sides() == old(self).saved_sides(),
            wins@ == winning_threats_spec(old(self).board@, old(self).rule(), side),
    {
        let ghost bm = self.board@;
        let ghost rule = self.rule();
        let ghost saved = self.saved_sides();
        let ghost keep = |m: Move| win_threat(bm, rule, side, m);
        let moves = self.threat_moves(side);
        let mut wins: Vec<Move> = Vec::new();
        let mut i: usize = 0;
        while i < moves.len()
            invariant
                self.wf(),
                self.board@ == bm,
                self.rule() == rule,
                self.saved_sides() == saved,
                valid_side(side),
                keep == (|m: Move| win_threat(bm, rule, side, m)),
                i <= moves@.len(),
                moves@ == threat_moves_spec(bm, side, rule),
                forall|j: int| 0 <= j < moves@.len() ==> rule_legal(bm, #[trigger] moves@[j], side, rule),
                wins@ == filter_moves(moves@, keep, i as int),
            decreases moves@.len() - i,
        {
            let m = moves[i];
            proof {
                assert(rule_legal(bm, moves@[i as int], side, rule));
                reveal(rule_legal);
            }
            self.play(m, side);
            let x = (m % 15) as usize;
            let y = (m / 15) as usize;
            if self.board.winner() == side || self.has_a4(x, y) {
                wins.push(m);
            }
            self.undo();
            proof {
                lemma_play_undo_restores(bm, m, side, rule);
                assert(self.saved_sides() =~= saved);
            }
            i = i + 1;
        }
        wins
    }

    /// Threat moves that make a four the opponent must answer and that `side`
    /// can complete legally.
    #[verifier::spinoff_prover]
    #[verifier::rlimit(30)]
    pub fn forcing_threat_moves(&mut self, side: Side) -> (forcing: Vec<Move>)
        requires
            old(self).wf(),
            valid_side(side),
        ensures
            final(self).wf(),
            final(self).board@ == old(self).board@,
            final(self).rule() == old(self).rule(),
            final(self).saved_sides() == old(self).saved_sides(),
            forcing@ == forcing_threats_spec(old(self).board@, old(self).rule(), side),
    {
        let ghost bm = self.board@;
        let ghost rule = self.rule();
        let ghost saved = self.saved_sides();
        let ghost keep = |m: Move| forcing_threat(bm, rule, side, m);
        let moves = self.threat_moves(side);
        let mut forcing: Vec<Move> = Vec::new();
        let mut i: usize = 0;
        while i < moves.len()
            invariant
                self.wf(),
                self.board@ == bm,
                self.rule() == rule,
                self.saved_sides() == saved,
                valid_side(side),
                keep == (|m: Move| forcing_threat(bm, rule, side, m)),
                i <= moves@.len(),
                moves@ == threat_moves_spec(bm, side, rule),
                forall|j: int| 0 <= j < moves@.len() ==> rule_legal(bm, #[trigger] moves@[j], side, rule),
                forcing@ == filter_moves(moves@, keep, i as int),
            decreases moves@.len() - i,
        {
            let m = moves[i];
            proof {
                assert(rule_legal(bm, moves@[i as int], side, rule));
                reveal(rule_legal);
            }
            self.play(m, side);
            let x = (m % 15) as usize;
            let y = (m / 15) as usize;
            if self.broken_four_reply(x, y).is_some() && self.four_has_rule_legal_completion(x, y) {
                forcing.push(m);
            }
            self.undo();
            proof {
                lemma_play_undo_restores(bm, m, side, rule);
                assert(self.saved_sides() =~= saved);
            }
            i = i + 1;
        }
        forcing
    }
}

/// `side` has a move that starts a winning threat sequence: a five, a
/// winning open four, a completable four or a double real open three.
pub fn has_vct_trigger(board: &Board, side: Side) -> (b: bool)
    requires
        board.wf(),
        valid_side(side),
    ensures
        b == vct_trigger_spec(board@, RuleSet::Freestyle, side),
{
    has_vct_trigger_for_rule(board, side, RuleSet::Freestyle)
}

pub fn has_vct_trigger_for_rule(board: &Board, side: Side, rule: RuleSet) -> (b: bool)
    requires
        board.wf(),
        valid_side(side),
    ensures
        b == vct_trigger_spec(board@, rule, side),
{
    let mut view = ThreatBoardView::from_board_with_rule(board.duplicate(), rule);
    let ghost bm = board@;
    let ghost saved = view.saved_sides();
    let moves = view.threat_moves(side);
    let mut i: usize = 0;
    while i < moves.len()
        invariant
            view.wf(),
            view.board@ == bm,
            bm == board@,
            view.rule() == rule,
            view.saved_sides() == saved,
            valid_side(side),
            i <= moves@.len(),
            moves@ == threat_moves_spec(bm, side, rule),
            forall|j: int| 0 <= j < i ==> !vct_pred(bm, rule, side, #[trigger] moves@[j]),
        decreases moves@.len() - i,
    {
        let m = moves[i];
        if view.is_rule_legal(m, side) {
            proof {
                reveal(rule_legal);
            }
            view.play(m, side);
            let x = (m % 15) as usize;
            let y = (m / 15) as usize;
            let is_b4_plus = view.board.winner() == side || view.has_winning_a4(x, y) || (view.b4_count(
                x,
                y,
            ) >= 1 && view.four_has_rule_legal_completion(x, y));
            let is_dual_a3 = !is_b4_plus && view.a3r_count(x, y) >= 2;
            view.undo();
            proof {
                lemma_play_undo_restores(bm, m, side, rule);
                assert(view.saved_sides() =~= saved);
            }
            if is_b4_plus || is_dual_a3 {
                assert(vct_pred(bm, rule, side, moves@[i as int]));
                return true;
            }
        }
        i = i + 1;
    }
    false
}

/// Empty points next to a stone of `side` that `side` may play (freestyle).
pub fn threat_moves(board: &Board, side: Side) -> (moves: Vec<Move>)
    requires
        board.wf(),
    ensures
        moves@ == threat_moves_spec(board@, side, RuleSet::Freestyle),
{
    ThreatBoardView::from_board(board.duplicate()).threat_moves(side)
}

pub fn has_open_four(board: &Board, x: usize, y: usize) -> (b: bool)
    requires
        board.wf(),
        x < 15,
        y < 15,
    ensures
        b == has_a4_spec(board@.cells, x as int, y as int),
{
    ThreatBoardView::from_board(board.duplicate()).has_a4(x, y)
}

pub fn broken_four_reply(board: &Board, x: usize, y: usize) -> (m: Option<Move>)
    requires
        board.wf(),
        x < 15,
        y < 15,
    ensures
        m == bfr_spec(board@.cells, x as int, y as int).0,
{
    ThreatBoardView::from_board(board.duplicate()).broken_four_reply(x, y)
}

pub fn winning_threat_moves(board: &Board, side: Side) -> (wins: Vec<Move>)
    requires
        board.wf(),
        valid_side(side),
    ensures
        wins@ == winning_threats_spec(board@, RuleSet::Freestyle, side),
{
    let mut view = ThreatBoardView::from_board(board.duplicate());
    view.winning_threat_moves(side)
}

pub fn forcing_threat_moves(board: &Board, side: Side) -> (forcing: Vec<Move>)
    requires
        board.wf(),
        valid_side(side),
    ensures
        forcing@ == forcing_threats_spec(board@, RuleSet::Freestyle, side),
{
    forcing_threat_moves_for_rule(board, side, RuleSet::Freestyle)
}

pub fn forcing_threat_moves_for_rule(board: &Board, side: Side, rule: RuleSet) -> (forcing: Vec<
    Move,
>)
    requires
        board.wf(),
        valid_side(side),
    ensures
        forcing@ == forcing_threats_spec(board@, rule, side),
{
    let mut view = ThreatBoardView::from_board_with_rule(board.duplicate(), rule);
    view.forcing_threat_moves(side)
}

} // verus!
