//! Candidate points for the search: the empty points near the stones played.
//!
//! A point is near a played stone when it lies within two steps of it in any
//! direction, or exactly three steps away along one of its four lines.
use vstd::prelude::*;

use crate::board::{Board, BoardModel};
use crate::constants::{BOARD_AREA, EMPTY};
use crate::types::{Move, PlayedMove};

verus! {

pub fn movegen_backend_name() -> (s: &'static str)
    ensures
        s@ == "python"@,
{
    "python"
}

pub open spec fn abs_int(v: int) -> int {
    if v < 0 {
        -v
    } else {
        v
    }
}

/// Point `c` is near the stone on point `m`.
pub open spec fn near(m: int, c: int) -> bool {
    let dx = c % 15 - m % 15;
    let dy = c / 15 - m / 15;
    let ax = abs_int(dx);
    let ay = abs_int(dy);
    let d = if ax > ay {
        ax
    } else {
        ay
    };
    (1 <= d <= 2) || (d == 3 && (dx == 0 || dy == 0 || ax == ay))
}

pub open spec fn ind(b: bool) -> int {
    if b {
        1
    } else {
        0
    }
}

/// How many of the first `k` moves played are near point `c`.
pub open spec fn cover_count(history: Seq<PlayedMove>, c: int, k: int) -> int
    decreases k,
{
    if k <= 0 {
        0
    } else {
        cover_count(history, c, k - 1) + ind(near(history[k - 1].move_ as int, c))
    }
}

proof fn lemma_cover_count_nonneg(history: Seq<PlayedMove>, c: int, k: int)
    ensures
        cover_count(history, c, k) >= 0,
    decreases k,
{
    if k > 0 {
        lemma_cover_count_nonneg(history, c, k - 1);
    }
}

/// The points below `k` that satisfy `pred`, in increasing order.
pub open spec fn points_where(pred: spec_fn(int) -> bool, k: int) -> Seq<Move>
    decreases k,
{
    if k <= 0 {
        Seq::empty()
    } else if pred(k - 1) {
        points_where(pred, k - 1).push((k - 1) as Move)
    } else {
        points_where(pred, k - 1)
    }
}

/// The candidate points of a position: the centre on an empty board, else
/// the empty points near some stone played, in increasing order.
pub open spec fn covered_spec(bm: BoardModel) -> Seq<Move> {
    if bm.history.len() == 0 {
        seq![112u16]
    } else {
        points_where(
            |c: int| bm.cells[c] == EMPTY && cover_count(bm.history, c, bm.history.len() as int) > 0,
            BOARD_AREA as int,
        )
    }
}

/// The candidate points read from coverage counts.
pub open spec fn tracked_points(counts: Seq<u16>, bm: BoardModel) -> Seq<Move> {
    if bm.history.len() == 0 {
        seq![112u16]
    } else {
        points_where(|c: int| counts[c] != 0 && bm.cells[c] == EMPTY, BOARD_AREA as int)
    }
}

proof fn lemma_points_where_ext(p: spec_fn(int) -> bool, q: spec_fn(int) -> bool, k: int)
    requires
        forall|c: int| 0 <= c < k ==> #[trigger] p(c) == q(c),
    ensures
        points_where(p, k) == points_where(q, k),
    decreases k,
{
    if k > 0 {
        lemma_points_where_ext(p, q, k - 1);
    }
}

fn abs_i64(v: i64) -> (r: i64)
    requires
        v > i64::MIN,
    ensures
        r == abs_int(v as int),
{
    if v < 0 {
        -v
    } else {
        v
    }
}

fn is_near(m: usize, c: usize) -> (b: bool)
    requires
        m < BOARD_AREA,
        c < BOARD_AREA,
    ensures
        b == near(m as int, c as int),
{
    let dx = (c % 15) as i64 - (m % 15) as i64;
    let dy = (c / 15) as i64 - (m / 15) as i64;
    let ax = abs_i64(dx);
    let ay = abs_i64(dy);
    let d = if ax > ay {
        ax
    } else {
        ay
    };
    (1 <= d && d <= 2) || (d == 3 && (dx == 0 || dy == 0 || ax == ay))
}

/// A fixed-capacity list of candidate points.
#[derive(Clone, Debug)]
pub struct CoveredMovesBuf {
    moves: Vec<Move>,
}

impl View for CoveredMovesBuf {
    type V = Seq<Move>;

    closed spec fn view(&self) -> Seq<Move> {
        self.moves@
    }
}

impl Default for CoveredMovesBuf {
    fn default() -> (b: Self)
        ensures
            b@.len() == 0,
    {
        CoveredMovesBuf { moves: Vec::new() }
    }
}

impl CoveredMovesBuf {
    pub fn push(&mut self, move_: Move)
        requires
            old(self)@.len() < BOARD_AREA,
        ensures
            final(self)@ == old(self)@.push(move_),
    {
        self.moves.push(move_);
    }

    pub fn as_slice(&self) -> (s: &[Move])
        ensures
            s@ == self@,
    {
        self.moves.as_slice()
    }

    fn clear(&mut self)
        ensures
            final(self)@.len() == 0,
    {
        self.moves.clear();
    }
}

/// For each point, how many played stones it is near.
#[derive(Clone, Debug)]
pub struct CoverageTracker {
    counts: [u16; 225],
}

impl CoverageTracker {
    pub closed spec fn counts(&self) -> Seq<u16> {
        self.counts@
    }

    /// The counts are those of the moves in `history`.
    pub open spec fn tracks(&self, history: Seq<PlayedMove>) -> bool {
        forall|c: int|
            0 <= c < BOARD_AREA ==> #[trigger] self.counts()[c] as int == cover_count(
                history,
                c,
                history.len() as int,
            )
    }

    /// The tracker of the moves played on `board`.
    pub fn from_board(board: &Board) -> (t: Self)
        requires
            board.wf(),
            board@.history.len() < u16::MAX,
        ensures
            t.tracks(board@.history),
    {
        let mut tracker = CoverageTracker { counts: [0u16; 225] };
        let history = board.move_history();
        let mut i: usize = 0;
        while i < history.len()
            invariant
                board.wf(),
                history@ == board@.history,
                history@.len() < u16::MAX,
                i <= history@.len(),
                tracker.counts@.len() == BOARD_AREA,
                forall|c: int|
                    0 <= c < BOARD_AREA ==> #[trigger] tracker.counts@[c] as int == cover_count(
                        history@,
                        c,
                        i as int,
                    ),
                forall|c: int| 0 <= c < BOARD_AREA ==> #[trigger] tracker.counts@[c] <= i,
            decreases history@.len() - i,
        {
            let m = history[i].move_;
            assert(m < BOARD_AREA);
            tracker.add_move(m);
            i = i + 1;
        }
        tracker
    }

    /// Counts the stone on `move_`: every point near it gains one.
    pub fn add_move(&mut self, move_: Move)
        requires
            move_ < BOARD_AREA,
            forall|c: int|
                0 <= c < BOARD_AREA && near(move_ as int, c) ==> #[trigger] old(self).counts()[c]
                    < u16::MAX,
        ensures
            final(self).counts().len() == BOARD_AREA,
            forall|c: int|
                0 <= c < BOARD_AREA ==> #[trigger] final(self).counts()[c] as int == old(
                    self,
                ).counts()[c] + ind(near(move_ as int, c)),
    {
        let mut c: usize = 0;
        while c < BOARD_AREA
            invariant
                move_ < BOARD_AREA,
                c <= BOARD_AREA,
                self.counts@.len() == BOARD_AREA,
                forall|j: int|
                    0 <= j < BOARD_AREA && near(move_ as int, j) ==> #[trigger] old(self).counts()[j]
                        < u16::MAX,
                forall|j: int|
                    0 <= j < BOARD_AREA ==> #[trigger] self.counts@[j] as int == old(self).counts@[j]
                        + if j < c {
                        ind(near(move_ as int, j))
                    } else {
                        0
                    },
            decreases BOARD_AREA - c,
        {
            assert(near(move_ as int, c as int) ==> old(self).counts()[c as int] < u16::MAX);
            if is_near(move_ as usize, c) {
                self.counts[c] = self.counts[c] + 1;
            }
            c = c + 1;
        }
    }

    /// Removes the stone on `move_`: every point near it loses one.
    pub fn remove_move(&mut self, move_: Move)
        requires
            move_ < BOARD_AREA,
            forall|c: int|
                0 <= c < BOARD_AREA && near(move_ as int, c) ==> #[trigger] old(self).counts()[c] > 0,
        ensures
            final(self).counts().len() == BOARD_AREA,
            forall|c: int|
                0 <= c < BOARD_AREA ==> #[trigger] final(self).counts()[c] as int == old(
                    self,
                ).counts()[c] - ind(near(move_ as int, c)),
    {
        let mut c: usize = 0;
        while c < BOARD_AREA
            invariant
                move_ < BOARD_AREA,
                c <= BOARD_AREA,
                self.counts@.len() == BOARD_AREA,
                forall|j: int|
                    0 <= j < BOARD_AREA && near(move_ as int, j) ==> #[trigger] old(self).counts()[j] > 0,
                forall|j: int|
                    0 <= j < BOARD_AREA ==> #[trigger] self.counts@[j] as int == old(self).counts@[j]
                        - if j < c {
                        ind(near(move_ as int, j))
                    } else {
                        0
                    },
            decreases BOARD_AREA - c,
        {
            assert(near(move_ as int, c as int) ==> old(self).counts()[c as int] > 0);
            if is_near(move_ as usize, c) {
                self.counts[c] = self.counts[c] - 1;
            }
            c = c + 1;
        }
    }

    /// The candidate points: the centre on an empty board, else the empty
    /// points with a nonzero count, in increasing order.
    pub fn collect_moves(&self, board: &Board, out: &mut CoveredMovesBuf)
        requires
            board.wf(),
        ensures
            final(out)@ == tracked_points(self.counts(), board@),
    {
        out.clear();
        if board.move_count() == 0 {
            out.push(112);
            return;
        }
        let ghost pred = |c: int| self.counts@[c] != 0 && board@.cells[c] == EMPTY;
        let mut c: usize = 0;
        while c < BOARD_AREA
            invariant
                board.wf(),
                board@.history.len() > 0,
                c <= BOARD_AREA,
                self.counts@.len() == BOARD_AREA,
                pred == (|c: int| self.counts@[c] != 0 && board@.cells[c] == EMPTY),
                out@ == points_where(pred, c as int),
                out@.len() <= c,
            decreases BOARD_AREA - c,
        {
            if self.counts[c] != 0 && board.cell_value(c % 15, c / 15) == EMPTY {
                out.push(c as Move);
            }
            c = c + 1;
        }
    }
}

/// The candidate points of `board` written into `out`.
fn collect_covered_moves(board: &Board, out: &mut CoveredMovesBuf)
    requires
        board.wf(),
    ensures
        final(out)@ == covered_spec(board@),
{
    out.clear();
    if board.move_count() == 0 {
        out.push(112);
        return;
    }
    let history = board.move_history();
    let mut seen: [bool; 225] = [false; 225];
    let mut i: usize = 0;
    while i < history.len()
        invariant
            board.wf(),
            history@ == board@.history,
            i <= history@.len(),
            seen@.len() == BOARD_AREA,
            forall|c: int|
                0 <= c < BOARD_AREA ==> #[trigger] seen@[c] == (board@.cells[c] == EMPTY && cover_count(
                    history@,
                    c,
                    i as int,
                ) > 0),
        decreases history@.len() - i,
    {
        let m = history[i].move_ as usize;
        assert(m < BOARD_AREA);
        let mut c: usize = 0;
        while c < BOARD_AREA
            invariant
                board.wf(),
                history@ == board@.history,
                i < history@.len(),
                m == history@[i as int].move_,
                m < BOARD_AREA,
                c <= BOARD_AREA,
                seen@.len() == BOARD_AREA,
                forall|j: int|
                    0 <= j < BOARD_AREA ==> #[trigger] seen@[j] == (board@.cells[j] == EMPTY && (
                    cover_count(history@, j, i as int) > 0 || (j < c && near(m as int, j)))),
            decreases BOARD_AREA - c,
        {
            if !seen[c] && is_near(m, c) && board.cell_value(c % 15, c / 15) == EMPTY {
                seen[c] = true;
            }
            c = c + 1;
        }
        assert forall|j: int| 0 <= j < BOARD_AREA implies #[trigger] seen@[j] == (board@.cells[j]
            == EMPTY && cover_count(history@, j, i + 1) > 0) by {
            assert(cover_count(history@, j, i + 1) == cover_count(history@, j, i as int) + ind(
                near(history@[i as int].move_ as int, j),
            ));
            lemma_cover_count_nonneg(history@, j, i as int);
        }
        i = i + 1;
    }
    let ghost pred = |c: int|
        board@.cells[c] == EMPTY && cover_count(board@.history, c, board@.history.len() as int) > 0;
    let mut c: usize = 0;
    while c < BOARD_AREA
        invariant
            board.wf(),
            board@.history.len() > 0,
            history@ == board@.history,
            c <= BOARD_AREA,
            seen@.len() == BOARD_AREA,
            forall|j: int|
                0 <= j < BOARD_AREA ==> #[trigger] seen@[j] == (board@.cells[j] == EMPTY && cover_count(
                    history@,
                    j,
                    history@.len() as int,
                ) > 0),
            pred == (|c: int|
                board@.cells[c] == EMPTY && cover_count(board@.history, c, board@.history.len() as int)
                    > 0),
            out@ == points_where(pred, c as int),
            out@.len() <= c,
        decreases BOARD_AREA - c,
    {
        if seen[c] {
            out.push(c as Move);
        }
        c = c + 1;
    }
}

/// The candidate points of `board`: the centre on an empty board, else the
/// empty points near some stone played, in increasing order.
pub fn covered_moves(board: &Board) -> (v: Vec<Move>)
    requires
        board.wf(),
    ensures
        v@ == covered_spec(board@),
{
    let mut moves = CoveredMovesBuf::default();
    collect_covered_moves(board, &mut moves);
    let s = moves.as_slice();
    let mut v: Vec<Move> = Vec::new();
    let mut i: usize = 0;
    while i < s.len()
        invariant
            i <= s@.len(),
            v@ == s@.subrange(0, i as int),
        decreases s@.len() - i,
    {
        v.push(s[i]);
        i = i + 1;
        assert(v@ =~= s@.subrange(0, i as int));
    }
    assert(v@ =~= s@);
    v
}

/// A tracker that counts the moves of a position reads off that position's
/// candidate points.
pub proof fn lemma_tracker_matches_covered(t: CoverageTracker, bm: BoardModel)
    requires
        t.tracks(bm.history),
    ensures
        tracked_points(t.counts(), bm) == covered_spec(bm),
{
    if bm.history.len() > 0 {
        let p = |c: int| t.counts()[c] != 0 && bm.cells[c] == EMPTY;
        let q = |c: int| bm.cells[c] == EMPTY && cover_count(bm.history, c, bm.history.len() as int) > 0;
        assert forall|c: int| 0 <= c < BOARD_AREA implies #[trigger] p(c) == q(c) by {
            assert(t.counts()[c] as int == cover_count(bm.history, c, bm.history.len() as int));
        }
        lemma_points_where_ext(p, q, BOARD_AREA as int);
    }
}

/// Playing a move and counting it, or taking it back and uncounting it, keeps
/// the counts those of the moves played.
pub proof fn lemma_cover_count_push(history: Seq<PlayedMove>, pm: PlayedMove, c: int)
    ensures
        cover_count(history.push(pm), c, history.len() + 1int) == cover_count(history, c, history.len() as int)
            + ind(near(pm.move_ as int, c)),
{
    lemma_cover_count_prefix(history, pm, c, history.len() as int);
}

/// A tracker that tracks a history and counts one more move tracks the
/// history with that move played.
pub proof fn lemma_tracks_after_add(before: CoverageTracker, after: CoverageTracker, history: Seq<PlayedMove>, pm: PlayedMove)
    requires
        before.tracks(history),
        forall|c: int|
            0 <= c < BOARD_AREA ==> #[trigger] after.counts()[c] as int == before.counts()[c] + ind(
                near(pm.move_ as int, c),
            ),
    ensures
        after.tracks(history.push(pm)),
{
    assert forall|c: int| 0 <= c < BOARD_AREA implies #[trigger] after.counts()[c] as int == cover_count(
        history.push(pm),
        c,
        history.push(pm).len() as int,
    ) by {
        lemma_cover_count_push(history, pm, c);
    }
}

/// A tracker that tracks a history and uncounts its last move tracks the
/// history with that move taken back.
pub proof fn lemma_tracks_after_remove(before: CoverageTracker, after: CoverageTracker, history: Seq<PlayedMove>)
    requires
        history.len() > 0,
        before.tracks(history),
        forall|c: int|
            0 <= c < BOARD_AREA ==> #[trigger] after.counts()[c] as int == before.counts()[c] - ind(
                near(history.last().move_ as int, c),
            ),
    ensures
        after.tracks(history.drop_last()),
{
    let h0 = history.drop_last();
    assert(h0.push(history.last()) =~= history);
    assert forall|c: int| 0 <= c < BOARD_AREA implies #[trigger] after.counts()[c] as int == cover_count(
        h0,
        c,
        h0.len() as int,
    ) by {
        lemma_cover_count_push(h0, history.last(), c);
    }
}

proof fn lemma_cover_count_prefix(history: Seq<PlayedMove>, pm: PlayedMove, c: int, k: int)
    requires
        0 <= k <= history.len(),
    ensures
        cover_count(history.push(pm), c, k) == cover_count(history, c, k),
    decreases k,
{
    if k > 0 {
        lemma_cover_count_prefix(history, pm, c, k - 1);
        assert(history.push(pm)[k - 1] == history[k - 1]);
    }
}

} // verus!
