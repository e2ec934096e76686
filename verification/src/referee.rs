//! The Renju referee for matches between outside engines: it replays the
//! moves so far and judges a candidate move.
use vstd::prelude::*;
use vstd::string::StringExecFns;

use crate::board::{wins_for_rule, xy_to_move, Board, BoardError, BoardModel};
use crate::constants::{BLACK, BOARD_AREA, EMPTY, WHITE};
use crate::rules::{classify_forbidden_move, classify_spec, ForbiddenKind, RuleSet};
use crate::text::{append_decimal, decimal_spec};
use crate::types::{valid_side, Move, PlayedMove, Side};

verus! {

/// The moves played so far, black first, and the move to judge.
pub struct RefereeRequest {
    pub moves: Vec<[usize; 2]>,
    pub candidate: [usize; 2],
    pub side: i8,
}

/// The answer on a candidate: whether it is legal, its forbidden kind when
/// that was decided, the winner it leaves, or the error that stopped the
/// referee.
#[derive(Clone, Debug, PartialEq, Eq)]
pub struct RefereeResponse {
    pub legal: bool,
    pub forbidden_kind: Option<&'static str>,
    pub winner: i8,
    pub error: Option<String>,
}

/// What the referee reads of a position: the stones, the side to move and
/// the winner.
pub ghost struct Position {
    pub cells: Seq<Side>,
    pub side_to_move: Side,
    pub winner: Side,
}

pub open spec fn position_of(bm: BoardModel) -> Position {
    Position { cells: bm.cells, side_to_move: bm.side_to_move, winner: bm.winner }
}

/// `side` plays `m` under `rule`: the error that refuses it, or the
/// position after it.
pub open spec fn play_position(p: Position, m: Move, side: Side, rule: RuleSet) -> Result<Position, BoardError> {
    if !valid_side(side) {
        Err(BoardError::InvalidSide(side))
    } else if side != p.side_to_move {
        Err(BoardError::WrongSideToMove { expected: p.side_to_move, got: side })
    } else if !(p.winner == EMPTY && m < BOARD_AREA && p.cells[m as int] == EMPTY) {
        Err(BoardError::IllegalMove(m))
    } else if rule == RuleSet::Renju && side == BLACK && (classify_spec(p.cells, m, side, rule) matches Ok(
        kind,
    ) && kind != ForbiddenKind::NotForbidden) {
        Err(BoardError::IllegalMove(m))
    } else {
        let cells = p.cells.update(m as int, side);
        Ok(
            Position {
                cells,
                side_to_move: (-side) as i8,
                winner: if wins_for_rule(cells, (m % 15) as int, (m / 15) as int, side, rule) {
                    side
                } else {
                    p.winner
                },
            },
        )
    }
}

pub open spec fn renju_play(p: Position, m: Move, side: Side) -> Result<Position, BoardError> {
    play_position(p, m, side, RuleSet::Renju)
}

pub open spec fn point_move(p: Seq<usize>) -> Move {
    (p[1] * 15 + p[0]) as Move
}

pub open spec fn on_board(p: Seq<usize>) -> bool {
    p[0] < 15 && p[1] < 15
}

/// Replaying `moves[i..]` from `p`, black on even turns: the position
/// reached, or the turn that failed with the error of its play (none when
/// the point is off the board).
pub open spec fn replay_from(p: Position, moves: Seq<[usize; 2]>, i: int) -> Result<Position, (int, Option<BoardError>)>
    decreases moves.len() - i,
{
    if i < 0 || i >= moves.len() {
        Ok(p)
    } else {
        let pt = moves[i]@;
        if !on_board(pt) {
            Err((i, None))
        } else {
            let side = if i % 2 == 0 {
                BLACK
            } else {
                WHITE
            };
            match renju_play(p, point_move(pt), side) {
                Ok(next) => replay_from(next, moves, i + 1),
                Err(e) => Err((i, Some(e))),
            }
        }
    }
}

pub open spec fn empty_position() -> Position {
    Position { cells: Seq::new(BOARD_AREA as nat, |i: int| EMPTY), side_to_move: BLACK, winner: EMPTY }
}

pub open spec fn kind_code(kind: ForbiddenKind) -> Seq<char> {
    match kind {
        ForbiddenKind::NotForbidden => "none"@,
        ForbiddenKind::DoubleThree => "double_three"@,
        ForbiddenKind::DoubleFour => "double_four"@,
        ForbiddenKind::Overline => "overline"@,
    }
}

/// The referee's names tell the kinds apart: two different kinds never get
/// the same code.
pub proof fn lemma_kind_code_distinct(a: ForbiddenKind, b: ForbiddenKind)
    ensures
        a != b ==> kind_code(a) != kind_code(b),
{
    reveal_strlit("none");
    reveal_strlit("double_three");
    reveal_strlit("double_four");
    reveal_strlit("overline");
    if a != b {
        let (ca, cb) = (kind_code(a), kind_code(b));
        if ca.len() == cb.len() {
            assert(ca[0] != cb[0] || ca[7] != cb[7]);
        }
    }
}

/// A verdict as plain values: legal, forbidden kind, winner, error.
pub open spec fn verdict_of(r: RefereeResponse) -> (bool, Option<Seq<char>>, Side, Option<Seq<char>>) {
    (
        r.legal,
        match r.forbidden_kind {
            Some(k) => Some(k@),
            None => None,
        },
        r.winner,
        match r.error {
            Some(e) => Some(e@),
            None => None,
        },
    )
}

/// The referee's verdict on the request.
pub open spec fn judge_spec(moves: Seq<[usize; 2]>, candidate: Seq<usize>, side: Side) -> (
    bool,
    Option<Seq<char>>,
    Side,
    Option<Seq<char>>,
) {
    match replay_from(empty_position(), moves, 0) {
        Err((i, None)) => (false, None, EMPTY, Some("prefix move "@ + decimal_spec((i + 1) as nat) + " is out of bounds"@)),
        Err((i, Some(e))) => (
            false,
            None,
            EMPTY,
            Some("prefix move "@ + decimal_spec((i + 1) as nat) + " is illegal: "@ + e.debug_spec()),
        ),
        Ok(p) => if side != p.side_to_move {
            (false, None, EMPTY, Some("candidate side does not match alternating order"@))
        } else if !on_board(candidate) {
            (false, None, EMPTY, Some("candidate is out of bounds"@))
        } else {
            let m = point_move(candidate);
            match classify_spec(p.cells, m, side, RuleSet::Renju) {
                Err(_) => (false, None, EMPTY, Some("candidate is occupied or invalid"@)),
                Ok(kind) => if kind != ForbiddenKind::NotForbidden {
                    (false, Some(kind_code(kind)), (-side) as i8, None)
                } else {
                    match renju_play(p, m, side) {
                        Err(e) => (false, None, EMPTY, Some("candidate play failed: "@ + e.debug_spec())),
                        Ok(after) => (true, Some("none"@), after.winner, None),
                    }
                },
            }
        },
    }
}

fn kind_code_text(kind: ForbiddenKind) -> (s: &'static str)
    ensures
        s@ == kind_code(kind),
{
    match kind {
        ForbiddenKind::NotForbidden => "none",
        ForbiddenKind::DoubleThree => "double_three",
        ForbiddenKind::DoubleFour => "double_four",
        ForbiddenKind::Overline => "overline",
    }
}

fn refusal(message: String) -> (r: RefereeResponse)
    ensures
        verdict_of(r) == (false, None::<Seq<char>>, EMPTY, Some(message@)),
{
    RefereeResponse { legal: false, forbidden_kind: None, winner: EMPTY, error: Some(message) }
}

/// Plays under `rule` on the board; the board's play and the model of it
/// agree.
pub fn play_checked(board: &mut Board, m: Move, side: Side, rule: RuleSet) -> (r: Result<(), BoardError>)
    requires
        old(board).wf(),
    ensures
        final(board).wf(),
        match play_position(position_of(old(board)@), m, side, rule) {
            Ok(p) => r is Ok && position_of(final(board)@) == p && final(board)@.history == old(
                board,
            )@.history.push(PlayedMove { move_: m, side }),
            Err(e) => r == Err::<(), BoardError>(e) && final(board)@ == old(board)@,
        },
{
    match board.play_for_rule(m, Some(side), rule) {
        Ok(_) => Ok(()),
        Err(e) => Err(e),
    }
}

/// Replays the request's moves on an empty board, black first, then judges
/// the candidate for the side given: an error for a bad prefix, a side out
/// of turn or a candidate off the board or on a stone; a forbidden point
/// loses for black; otherwise the move is legal and the winner it leaves is
/// reported.
pub fn judge(request: RefereeRequest) -> (r: RefereeResponse)
    ensures
        verdict_of(r) == judge_spec(request.moves@, request.candidate@, request.side),
{
    let mut board = Board::new();
    let ghost start = position_of(board@);
    assert(start == empty_position());
    let n = request.moves.len();
    let mut i: usize = 0;
    while i < n
        invariant
            board.wf(),
            n == request.moves@.len(),
            i <= n,
            replay_from(position_of(board@), request.moves@, i as int) == replay_from(
                empty_position(),
                request.moves@,
                0,
            ),
        decreases n - i,
    {
        let point = request.moves[i];
        let side = if i % 2 == 0 {
            BLACK
        } else {
            -BLACK
        };
        let m = match xy_to_move(point[0], point[1]) {
            Ok(m) => m,
            Err(_) => {
                let mut message = String::from_str("prefix move ");
                append_decimal(&mut message, (i + 1) as u64);
                message.append(" is out of bounds");
                return refusal(message);
            },
        };
        match play_checked(&mut board, m, side, RuleSet::Renju) {
            Ok(()) => {},
            Err(err) => {
                let mut message = String::from_str("prefix move ");
                append_decimal(&mut message, (i + 1) as u64);
                message.append(" is illegal: ");
                let message = message.concat(err.debug_text().as_str());
                return refusal(message);
            },
        }
        i = i + 1;
    }
    let side = request.side;
    if side != board.side_to_move() {
        return refusal(String::from_str("candidate side does not match alternating order"));
    }
    let candidate = match xy_to_move(request.candidate[0], request.candidate[1]) {
        Ok(m) => m,
        Err(_) => {
            return refusal(String::from_str("candidate is out of bounds"));
        },
    };
    let kind = match classify_forbidden_move(&board, candidate, side, RuleSet::Renju) {
        Ok(kind) => kind,
        Err(_) => {
            return refusal(String::from_str("candidate is occupied or invalid"));
        },
    };
    if kind.is_forbidden() {
        return RefereeResponse {
            legal: false,
            forbidden_kind: Some(kind_code_text(kind)),
            winner: -side,
            error: None,
        };
    }
    match play_checked(&mut board, candidate, side, RuleSet::Renju) {
        Ok(()) => {},
        Err(err) => {
            let message = String::from_str("candidate play failed: ").concat(err.debug_text().as_str());
            return refusal(message);
        },
    }
    RefereeResponse { legal: true, forbidden_kind: Some("none"), winner: board.winner(), error: None }
}

} // verus!
