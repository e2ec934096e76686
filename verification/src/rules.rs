//! Renju forbidden-move detection.
//!
//! A hypothetical black move is classified under Renju rules: an exact five is
//! always allowed, then overline, double four and (recursively verified) double
//! three are forbidden. Freestyle play and white moves are never forbidden.
use vstd::prelude::*;

use crate::board::{move_to_xy, xy_to_move, Board, BoardError};
use crate::constants::{BLACK, BOARD_AREA, BOARD_SIZE, EMPTY};
use crate::text::{chars_of, is_lower_word, matches_lower, unknown_name_message};
use crate::types::{is_valid_side, valid_cell, valid_side, Move, Side};

verus! {

#[derive(Clone, Copy, Debug, PartialEq, Eq, Structural)]
pub enum RuleSet {
    Freestyle,
    Renju,
}

impl RuleSet {
    pub fn as_str(self) -> (s: &'static str)
        ensures
            self == RuleSet::Freestyle ==> s@ == "freestyle"@,
            self == RuleSet::Renju ==> s@ == "renju"@,
    {
        match self {
            RuleSet::Freestyle => "freestyle",
            RuleSet::Renju => "renju",
        }
    }

    /// A rule set by name, ignoring ASCII case: `0`, `freestyle` or `free`
    /// for freestyle, `4` or `renju` for Renju.
    pub open spec fn named(raw: Seq<char>) -> Option<RuleSet> {
        if matches_lower(raw, "0"@) || matches_lower(raw, "freestyle"@) || matches_lower(raw, "free"@) {
            Some(RuleSet::Freestyle)
        } else if matches_lower(raw, "4"@) || matches_lower(raw, "renju"@) {
            Some(RuleSet::Renju)
        } else {
            None
        }
    }

    /// The rule set named by the characters `raw`.
    pub fn from_chars(raw: &Vec<char>) -> (r: Option<RuleSet>)
        ensures
            r == RuleSet::named(raw@),
    {
        if is_lower_word(raw, "0") || is_lower_word(raw, "freestyle") || is_lower_word(raw, "free") {
            Some(RuleSet::Freestyle)
        } else if is_lower_word(raw, "4") || is_lower_word(raw, "renju") {
            Some(RuleSet::Renju)
        } else {
            None
        }
    }

    /// The rule set named by `raw`, or a message naming what was given.
    pub fn parse(raw: &str) -> (r: Result<RuleSet, String>)
        ensures
            match RuleSet::named(raw@) {
                Some(rule) => r == Ok::<RuleSet, String>(rule),
                None => r matches Err(m) && m@ == "unknown rule set"@ + ": "@ + raw@,
            },
    {
        match RuleSet::from_chars(&chars_of(raw)) {
            Some(rule) => Ok(rule),
            None => Err(unknown_name_message("unknown rule set", raw)),
        }
    }
}

impl std::str::FromStr for RuleSet {
    type Err = String;

    fn from_str(raw: &str) -> (r: Result<Self, Self::Err>)
        ensures
            match RuleSet::named(raw@) {
                Some(rule) => r == Ok::<RuleSet, String>(rule),
                None => r matches Err(m) && m@ == "unknown rule set"@ + ": "@ + raw@,
            },
    {
        RuleSet::parse(raw)
    }
}

#[derive(Clone, Copy, Debug, PartialEq, Eq, Structural)]
pub enum ForbiddenKind {
    NotForbidden,
    DoubleThree,
    DoubleFour,
    Overline,
}

impl ForbiddenKind {
    pub fn is_forbidden(self) -> (forbidden: bool)
        ensures
            forbidden == (self != ForbiddenKind::NotForbidden),
    {
        !matches!(self, ForbiddenKind::NotForbidden)
    }
}

// ---------------------------------------------------------------------------
// Board geometry of the four line directions through a point.
// Direction 0 is horizontal (1, 0), 1 vertical (0, 1), 2 the main diagonal
// (1, 1) and 3 the anti-diagonal (1, -1). A line is read from its first cell
// on the board edge; `line_anchor` is the index of the point itself.
// ---------------------------------------------------------------------------

pub open spec fn min_int(a: int, b: int) -> int {
    if a <= b {
        a
    } else {
        b
    }
}

pub open spec fn max_int(a: int, b: int) -> int {
    if a >= b {
        a
    } else {
        b
    }
}

pub open spec fn line_anchor(d: int, x: int, y: int) -> int {
    if d == 0 {
        x
    } else if d == 1 {
        y
    } else if d == 2 {
        min_int(x, y)
    } else {
        min_int(x, 14 - y)
    }
}

pub open spec fn line_start_x(d: int, x: int, y: int) -> int {
    if d == 0 {
        0
    } else if d == 1 {
        x
    } else {
        x - line_anchor(d, x, y)
    }
}

pub open spec fn line_start_y(d: int, x: int, y: int) -> int {
    if d == 0 {
        y
    } else if d == 1 {
        0
    } else if d == 2 {
        y - line_anchor(d, x, y)
    } else {
        y + line_anchor(d, x, y)
    }
}

pub open spec fn line_len(d: int, x: int, y: int) -> int {
    if d == 0 || d == 1 {
        15
    } else if d == 2 {
        15 - max_int(line_start_x(d, x, y), line_start_y(d, x, y))
    } else {
        min_int(15 - line_start_x(d, x, y), line_start_y(d, x, y) + 1)
    }
}

pub open spec fn line_px(d: int, x: int, y: int, t: int) -> int {
    if d == 1 {
        x
    } else {
        line_start_x(d, x, y) + t
    }
}

pub open spec fn line_py(d: int, x: int, y: int, t: int) -> int {
    if d == 0 {
        y
    } else if d == 1 {
        t
    } else if d == 2 {
        line_start_y(d, x, y) + t
    } else {
        line_start_y(d, x, y) - t
    }
}

/// The cells of direction `d` through `(x, y)`, from the board edge.
pub open spec fn line_seq(cells: Seq<Side>, d: int, x: int, y: int) -> Seq<Side> {
    Seq::new(
        line_len(d, x, y) as nat,
        |t: int| cells[line_py(d, x, y, t) * 15 + line_px(d, x, y, t)],
    )
}

pub open spec fn on_board(x: int, y: int) -> bool {
    0 <= x < 15 && 0 <= y < 15
}

pub open spec fn is_direction(d: int) -> bool {
    0 <= d < 4
}

proof fn lemma_line_geometry(d: int, x: int, y: int)
    requires
        on_board(x, y),
        is_direction(d),
    ensures
        1 <= line_len(d, x, y) <= 15,
        0 <= line_anchor(d, x, y) < line_len(d, x, y),
        line_px(d, x, y, line_anchor(d, x, y)) == x,
        line_py(d, x, y, line_anchor(d, x, y)) == y,
        forall|t: int|
            0 <= t < line_len(d, x, y) ==> #[trigger] on_board(
                line_px(d, x, y, t),
                line_py(d, x, y, t),
            ),
{
}

// ---------------------------------------------------------------------------
// Runs of black stones along a line, optionally with two extra black points.
// ---------------------------------------------------------------------------

pub open spec fn cell_with_extra_spec(s: Seq<Side>, i: int, e1: int, e2: int) -> Side {
    if i == e1 || i == e2 {
        BLACK
    } else {
        s[i]
    }
}

/// Number of consecutive black cells immediately before index `i`.
pub open spec fn run_left(s: Seq<Side>, i: int, e1: int, e2: int) -> int
    decreases i,
{
    if i <= 0 {
        0
    } else if cell_with_extra_spec(s, i - 1, e1, e2) == BLACK {
        1 + run_left(s, i - 1, e1, e2)
    } else {
        0
    }
}

/// Number of consecutive black cells immediately after index `i`.
pub open spec fn run_right(s: Seq<Side>, i: int, e1: int, e2: int) -> int
    decreases s.len() - i,
{
    if i + 1 >= s.len() {
        0
    } else if cell_with_extra_spec(s, i + 1, e1, e2) == BLACK {
        1 + run_right(s, i + 1, e1, e2)
    } else {
        0
    }
}

/// An index that is never an extra black point.
pub open spec fn no_extra() -> int {
    usize::MAX as int
}

/// Length of the black run through the anchor (which must be black).
pub open spec fn anchor_run(s: Seq<Side>, anchor: int) -> int {
    1 + run_left(s, anchor, no_extra(), no_extra()) + run_right(s, anchor, no_extra(), no_extra())
}

proof fn lemma_run_left_bounds(s: Seq<Side>, i: int, e1: int, e2: int)
    ensures
        0 <= run_left(s, i, e1, e2),
        i >= 0 ==> run_left(s, i, e1, e2) <= i,
    decreases i,
{
    if i > 0 {
        lemma_run_left_bounds(s, i - 1, e1, e2);
    }
}

proof fn lemma_run_right_bounds(s: Seq<Side>, i: int, e1: int, e2: int)
    ensures
        0 <= run_right(s, i, e1, e2),
        i < s.len() ==> run_right(s, i, e1, e2) <= s.len() - 1 - i,
    decreases s.len() - i,
{
    if i + 1 < s.len() {
        lemma_run_right_bounds(s, i + 1, e1, e2);
    }
}

// ---------------------------------------------------------------------------
// Four shapes: windows of five through the anchor holding four black stones
// and one empty point, not extended by black on either side. Two windows that
// hold the same four stones (an open four) count once.
// ---------------------------------------------------------------------------

pub open spec fn four_start_min(anchor: int) -> int {
    max_int(0, anchor - 4)
}

pub open spec fn four_start_max(len: int, anchor: int) -> int {
    min_int(anchor, len - 5)
}

/// Number of empty cells among `s[st..st + k]`; `-1`-free cells only.
pub open spec fn window_empties(s: Seq<Side>, st: int, k: int) -> int
    decreases k,
{
    if k <= 0 {
        0
    } else {
        window_empties(s, st, k - 1) + if s[st + k - 1] == EMPTY {
            1int
        } else {
            0int
        }
    }
}

pub open spec fn window_has_white(s: Seq<Side>, st: int, k: int) -> bool
    decreases k,
{
    if k <= 0 {
        false
    } else {
        window_has_white(s, st, k - 1) || (s[st + k - 1] != BLACK && s[st + k - 1] != EMPTY)
    }
}

pub open spec fn four_window(s: Seq<Side>, st: int) -> bool {
    &&& !window_has_white(s, st, 5)
    &&& window_empties(s, st, 5) == 1
    &&& (st == 0 || s[st - 1] != BLACK)
    &&& (st + 5 == s.len() || s[st + 5] != BLACK)
}

/// The window at `st` holds the same four stones as the one at `st - 1`.
pub open spec fn four_window_repeats(s: Seq<Side>, anchor: int, st: int) -> bool {
    st - 1 >= four_start_min(anchor) && four_window(s, st - 1) && s[st - 1] == EMPTY && s[st + 4]
        == EMPTY
}

pub open spec fn counted_four(s: Seq<Side>, anchor: int, st: int) -> bool {
    four_window(s, st) && !four_window_repeats(s, anchor, st)
}

/// Distinct four shapes among the windows starting in `[four_start_min, st)`.
pub open spec fn four_count_upto(s: Seq<Side>, anchor: int, st: int) -> int
    decreases st - four_start_min(anchor),
{
    if st <= four_start_min(anchor) {
        0
    } else {
        four_count_upto(s, anchor, st - 1) + if counted_four(s, anchor, st - 1) {
            1int
        } else {
            0int
        }
    }
}

pub open spec fn four_shape_count(s: Seq<Side>, anchor: int) -> int {
    if s.len() < 5 {
        0
    } else {
        four_count_upto(s, anchor, four_start_max(s.len() as int, anchor) + 1)
    }
}

// ---------------------------------------------------------------------------
// Open threes: the nearest empty point on each side of the anchor (across at
// most four cells, skipping black stones) is a gain point. A gain makes a
// true three when playing it gives at least two winning completions that use
// both the anchor and the gain, and the gain itself is not forbidden.
// ---------------------------------------------------------------------------

/// The gain points of the anchor, the left one first.
pub open spec fn gain_list(s: Seq<Side>, a: int) -> Seq<int> {
    let g1 = left_gain_scan(s, a, 4);
    let g2 = right_gain_scan(s, a, 4);
    if g1 >= 0 && g2 >= 0 {
        seq![g1, g2]
    } else if g1 >= 0 {
        seq![g1]
    } else if g2 >= 0 {
        seq![g2]
    } else {
        Seq::<int>::empty()
    }
}

pub open spec fn left_gain_scan(s: Seq<Side>, i: int, steps: int) -> int
    decreases steps,
{
    if steps <= 0 || i <= 0 {
        -1
    } else if s[i - 1] == EMPTY {
        i - 1
    } else if s[i - 1] == BLACK {
        left_gain_scan(s, i - 1, steps - 1)
    } else {
        -1
    }
}

pub open spec fn right_gain_scan(s: Seq<Side>, i: int, steps: int) -> int
    decreases steps,
{
    if steps <= 0 || i + 1 >= s.len() {
        -1
    } else if s[i + 1] == EMPTY {
        i + 1
    } else if s[i + 1] == BLACK {
        right_gain_scan(s, i + 1, steps - 1)
    } else {
        -1
    }
}

/// The black run through `e` (with `gain` and `e` black) is a five covering
/// both the anchor and the gain.
pub open spec fn winning_extension(s: Seq<Side>, anchor: int, gain: int, e: int) -> bool {
    let start = e - run_left(s, e, gain, e);
    let end = e + run_right(s, e, gain, e);
    &&& e != anchor
    &&& e != gain
    &&& s[e] == EMPTY
    &&& end - start + 1 == 5
    &&& start <= anchor <= end
    &&& start <= gain <= end
}

pub open spec fn ext_start(anchor: int) -> int {
    max_int(0, anchor - 5)
}

pub open spec fn ext_end(len: int, anchor: int) -> int {
    min_int(len, anchor + 6)
}

pub open spec fn extension_count_upto(s: Seq<Side>, anchor: int, gain: int, e: int) -> int
    decreases e - ext_start(anchor),
{
    if e <= ext_start(anchor) {
        0
    } else {
        extension_count_upto(s, anchor, gain, e - 1) + if winning_extension(
            s,
            anchor,
            gain,
            e - 1,
        ) {
            1int
        } else {
            0int
        }
    }
}

pub open spec fn open_four_through_gain(s: Seq<Side>, anchor: int, gain: int) -> bool {
    extension_count_upto(s, anchor, gain, ext_end(s.len() as int, anchor)) >= 2
}

// ---------------------------------------------------------------------------
// The recursive classification of a placed black stone.
// ---------------------------------------------------------------------------

pub open spec fn count_empty(s: Seq<Side>) -> nat
    decreases s.len(),
{
    if s.len() == 0 {
        0
    } else {
        count_empty(s.drop_last()) + if s.last() == EMPTY {
            1nat
        } else {
            0nat
        }
    }
}

pub proof fn lemma_count_empty_update(s: Seq<Side>, i: int, v: Side)
    requires
        0 <= i < s.len(),
        s[i] == EMPTY,
        v != EMPTY,
    ensures
        count_empty(s.update(i, v)) + 1 == count_empty(s),
    decreases s.len(),
{
    if i == s.len() - 1 {
        assert(s.update(i, v).drop_last() =~= s.drop_last());
    } else {
        lemma_count_empty_update(s.drop_last(), i, v);
        assert(s.update(i, v).drop_last() =~= s.drop_last().update(i, v));
    }
}

pub open spec fn grid_cells(cells: Seq<Side>) -> bool {
    &&& cells.len() == BOARD_AREA
    &&& forall|i: int| 0 <= i < BOARD_AREA ==> valid_cell(#[trigger] cells[i])
}

pub open spec fn has_exact_five_dir(cells: Seq<Side>, x: int, y: int, d: int) -> bool {
    anchor_run(line_seq(cells, d, x, y), line_anchor(d, x, y)) == 5
}

pub open spec fn has_overline_dir(cells: Seq<Side>, x: int, y: int, d: int) -> bool {
    anchor_run(line_seq(cells, d, x, y), line_anchor(d, x, y)) >= 6
}

pub open spec fn has_exact_five_spec(cells: Seq<Side>, x: int, y: int) -> bool {
    has_exact_five_dir(cells, x, y, 0) || has_exact_five_dir(cells, x, y, 1) || has_exact_five_dir(
        cells,
        x,
        y,
        2,
    ) || has_exact_five_dir(cells, x, y, 3)
}

pub open spec fn has_overline_spec(cells: Seq<Side>, x: int, y: int) -> bool {
    has_overline_dir(cells, x, y, 0) || has_overline_dir(cells, x, y, 1) || has_overline_dir(
        cells,
        x,
        y,
        2,
    ) || has_overline_dir(cells, x, y, 3)
}

pub open spec fn four_count_dir(cells: Seq<Side>, x: int, y: int, d: int) -> int {
    four_shape_count(line_seq(cells, d, x, y), line_anchor(d, x, y))
}

pub open spec fn four_count_spec(cells: Seq<Side>, x: int, y: int) -> int {
    four_count_dir(cells, x, y, 0) + four_count_dir(cells, x, y, 1) + four_count_dir(cells, x, y, 2)
        + four_count_dir(cells, x, y, 3)
}

/// The kind of the black stone standing on `(x, y)`.
pub open spec fn placed_kind(cells: Seq<Side>, x: int, y: int) -> ForbiddenKind
    decreases count_empty(cells), 4int,
{
    if has_exact_five_spec(cells, x, y) {
        ForbiddenKind::NotForbidden
    } else if has_overline_spec(cells, x, y) {
        ForbiddenKind::Overline
    } else if four_count_spec(cells, x, y) >= 2 {
        ForbiddenKind::DoubleFour
    } else if (if true_three_dir(cells, x, y, 0) {
        1int
    } else {
        0int
    }) + (if true_three_dir(cells, x, y, 1) {
        1int
    } else {
        0int
    }) + (if true_three_dir(cells, x, y, 2) {
        1int
    } else {
        0int
    }) + (if true_three_dir(cells, x, y, 3) {
        1int
    } else {
        0int
    }) >= 2 {
        ForbiddenKind::DoubleThree
    } else {
        ForbiddenKind::NotForbidden
    }
}

/// Direction `d` through the black stone on `(x, y)` is a true open three.
pub open spec fn true_three_dir(cells: Seq<Side>, x: int, y: int, d: int) -> bool
    decreases count_empty(cells), 3int,
{
    let s = line_seq(cells, d, x, y);
    let anchor = line_anchor(d, x, y);
    let g1 = left_gain_scan(s, anchor, 4);
    let g2 = right_gain_scan(s, anchor, 4);
    if four_count_dir(cells, x, y, d) > 0 {
        false
    } else {
        (g1 >= 0 && gain_ok(cells, d, x, y, g1)) || (g2 >= 0 && gain_ok(cells, d, x, y, g2))
    }
}

/// The gain at line index `g` makes an open four through the anchor and is
/// itself a legal black move.
pub open spec fn gain_ok(cells: Seq<Side>, d: int, x: int, y: int, g: int) -> bool
    decreases count_empty(cells), 2int,
{
    open_four_through_gain(line_seq(cells, d, x, y), line_anchor(d, x, y), g) && legal_gain(
        cells,
        line_px(d, x, y, g),
        line_py(d, x, y, g),
    )
}

/// Black may play the empty point `(gx, gy)`.
pub open spec fn legal_gain(cells: Seq<Side>, gx: int, gy: int) -> bool
    decreases count_empty(cells), 1int,
{
    if cells.len() == BOARD_AREA && on_board(gx, gy) && cells[gy * 15 + gx] == EMPTY {
        proof {
            lemma_count_empty_update(cells, gy * 15 + gx, BLACK);
        }
        placed_kind(cells.update(gy * 15 + gx, BLACK), gx, gy) == ForbiddenKind::NotForbidden
    } else {
        false
    }
}

/// A gain point counts for an open three exactly when black may legally
/// play it: on every board, the gain test accepts an empty point just when
/// classifying a black move there under Renju gives `NotForbidden`, so a
/// gain that is itself a double three, double four or overline makes the
/// three false.
pub proof fn lemma_gain_legal_iff_not_forbidden(cells: Seq<Side>, gx: int, gy: int)
    requires
        cells.len() == BOARD_AREA,
        on_board(gx, gy),
    ensures
        legal_gain(cells, gx, gy) <==> classify_spec(cells, (gy * 15 + gx) as Move, BLACK, RuleSet::Renju)
            == Ok::<ForbiddenKind, BoardError>(ForbiddenKind::NotForbidden),
{
    let m = (gy * 15 + gx) as Move;
    assert(m as int == gy * 15 + gx);
    assert((gy * 15 + gx) % 15 == gx && (gy * 15 + gx) / 15 == gy) by (nonlinear_arith)
        requires
            0 <= gx < 15,
            0 <= gy < 15,
    ;
}

/// A true open three has a gain point that black may legally play: one of
/// the gain points of its line, on the board, where classifying a black move
/// under Renju gives `NotForbidden`.
pub proof fn lemma_true_three_has_legal_four_point(cells: Seq<Side>, x: int, y: int, d: int)
    requires
        cells.len() == BOARD_AREA,
        true_three_dir(cells, x, y, d),
    ensures
        exists|g: int|
            0 <= g && (g == left_gain_scan(line_seq(cells, d, x, y), line_anchor(d, x, y), 4) || g
                == right_gain_scan(line_seq(cells, d, x, y), line_anchor(d, x, y), 4)) && on_board(
                line_px(d, x, y, g),
                line_py(d, x, y, g),
            ) && classify_spec(
                cells,
                (line_py(d, x, y, g) * 15 + line_px(d, x, y, g)) as Move,
                BLACK,
                RuleSet::Renju,
            ) == Ok::<ForbiddenKind, BoardError>(ForbiddenKind::NotForbidden),
{
    let s = line_seq(cells, d, x, y);
    let anchor = line_anchor(d, x, y);
    let g1 = left_gain_scan(s, anchor, 4);
    let g2 = right_gain_scan(s, anchor, 4);
    let g = if g1 >= 0 && gain_ok(cells, d, x, y, g1) {
        g1
    } else {
        g2
    };
    let (gx, gy) = (line_px(d, x, y, g), line_py(d, x, y, g));
    assert(legal_gain(cells, gx, gy));
    assert(on_board(gx, gy));
    lemma_gain_legal_iff_not_forbidden(cells, gx, gy);
}

proof fn lemma_true_three_list(cells: Seq<Side>, d: int, x: int, y: int)
    ensures
        ({
            let s = line_seq(cells, d, x, y);
            let gl = gain_list(s, line_anchor(d, x, y));
            true_three_dir(cells, x, y, d) == (four_count_dir(cells, x, y, d) == 0 && ((gl.len()
                >= 1 && gain_ok(cells, d, x, y, gl[0])) || (gl.len() >= 2 && gain_ok(
                cells,
                d,
                x,
                y,
                gl[1],
            ))))
        }),
{
    
    lemma_four_count_dir_nonneg(cells, d, x, y);
    let s = line_seq(cells, d, x, y);
    let a = line_anchor(d, x, y);
    let g1 = left_gain_scan(s, a, 4);
    let g2 = right_gain_scan(s, a, 4);
    let gl = gain_list(s, a);
    let fc = four_count_dir(cells, x, y, d);
    let t = true_three_dir(cells, x, y, d);
    assert(fc > 0 ==> !t);
    assert(fc <= 0 ==> (t == ((g1 >= 0 && gain_ok(cells, d, x, y, g1)) || (g2 >= 0 && gain_ok(cells, d, x, y, g2)))));
    assert(t == (fc <= 0 && ((g1 >= 0 && gain_ok(cells, d, x, y, g1)) || (g2 >= 0 && gain_ok(
        cells,
        d,
        x,
        y,
        g2,
    )))));
    if g1 >= 0 && g2 >= 0 {
        assert(gl.len() == 2 && gl[0] == g1 && gl[1] == g2);
    } else if g1 >= 0 {
        assert(gl.len() == 1 && gl[0] == g1);
    } else if g2 >= 0 {
        assert(gl.len() == 1 && gl[0] == g2);
    } else {
        assert(gl.len() == 0);
    }
}

proof fn lemma_four_count_dir_nonneg(cells: Seq<Side>, d: int, x: int, y: int)
    ensures
        four_count_dir(cells, x, y, d) >= 0,
{
    let s = line_seq(cells, d, x, y);
    let a = line_anchor(d, x, y);
    if s.len() >= 5 {
        lemma_four_count_nonneg(s, a, four_start_max(s.len() as int, a) + 1);
    }
}

proof fn lemma_four_count_nonneg(s: Seq<Side>, a: int, st: int)
    ensures
        four_count_upto(s, a, st) >= 0,
    decreases st - four_start_min(a),
{
    if st > four_start_min(a) {
        lemma_four_count_nonneg(s, a, st - 1);
    }
}

/// The Renju kind of a black move on the empty point `(x, y)`.
pub open spec fn forbidden_kind_at(cells: Seq<Side>, x: int, y: int) -> ForbiddenKind {
    placed_kind(cells.update(y * 15 + x, BLACK), x, y)
}

// ---------------------------------------------------------------------------
// Executable line analysis.
// ---------------------------------------------------------------------------

#[derive(Clone, Copy)]
struct DirectionalLine {
    cells: [Side; BOARD_SIZE],
    xs: [usize; BOARD_SIZE],
    ys: [usize; BOARD_SIZE],
    len: usize,
    anchor: usize,
}

impl DirectionalLine {
    spec fn view_seq(&self) -> Seq<Side> {
        self.cells@.subrange(0, self.len as int)
    }

    spec fn matches(&self, cells: Seq<Side>, d: int, x: int, y: int) -> bool {
        &&& self.len == line_len(d, x, y)
        &&& self.anchor == line_anchor(d, x, y)
        &&& self.view_seq() == line_seq(cells, d, x, y)
        &&& forall|t: int|
            0 <= t < self.len ==> self.xs@[t] == line_px(d, x, y, t) && self.ys@[t] == line_py(
                d,
                x,
                y,
                t,
            )
    }

    spec fn well_formed(&self) -> bool {
        &&& 1 <= self.len <= 15
        &&& self.anchor < self.len
        &&& forall|t: int| 0 <= t < self.len ==> valid_cell(#[trigger] self.cells@[t])
        &&& forall|t: int|
            0 <= t < self.len ==> self.xs@[t] < 15 && self.ys@[t] < 15
    }

    fn from_grid(grid: &[Side; BOARD_AREA], x: usize, y: usize, d: usize) -> (line: Self)
        requires
            x < 15,
            y < 15,
            d < 4,
            grid_cells(grid@),
        ensures
            line.matches(grid@, d as int, x as int, y as int),
            line.well_formed(),
    {
        proof {
            lemma_line_geometry(d as int, x as int, y as int);
        }
        let (sx, sy, len, anchor): (usize, usize, usize, usize) = if d == 0 {
            (0, y, 15, x)
        } else if d == 1 {
            (x, 0, 15, y)
        } else if d == 2 {
            let m = if x <= y {
                x
            } else {
                y
            };
            let sx = x - m;
            let sy = y - m;
            let mx = if sx >= sy {
                sx
            } else {
                sy
            };
            (sx, sy, 15 - mx, m)
        } else {
            let m = if x <= 14 - y {
                x
            } else {
                14 - y
            };
            let sx = x - m;
            let sy = y + m;
            let l = if 15 - sx <= sy + 1 {
                15 - sx
            } else {
                sy + 1
            };
            (sx, sy, l, m)
        };
        let mut cells = [EMPTY; BOARD_SIZE];
        let mut xs = [0usize; BOARD_SIZE];
        let mut ys = [0usize; BOARD_SIZE];
        let mut t: usize = 0;
        while t < len
            invariant
                x < 15,
                y < 15,
                d < 4,
                grid_cells(grid@),
                len == line_len(d as int, x as int, y as int),
                anchor == line_anchor(d as int, x as int, y as int),
                sx == line_start_x(d as int, x as int, y as int),
                sy == line_start_y(d as int, x as int, y as int),
                1 <= len <= 15,
                t <= len,
                forall|j: int|
                    0 <= j < len ==> #[trigger] on_board(
                        line_px(d as int, x as int, y as int, j),
                        line_py(d as int, x as int, y as int, j),
                    ),
                forall|j: int|
                    0 <= j < t ==> cells@[j] == grid@[line_py(d as int, x as int, y as int, j) * 15
                        + line_px(d as int, x as int, y as int, j)] && xs@[j] == line_px(
                        d as int,
                        x as int,
                        y as int,
                        j,
                    ) && ys@[j] == line_py(d as int, x as int, y as int, j),
            decreases len - t,
        {
            let (px, py): (usize, usize) = if d == 0 {
                (t, y)
            } else if d == 1 {
                (x, t)
            } else if d == 2 {
                (sx + t, sy + t)
            } else {
                (sx + t, sy - t)
            };
            assert(on_board(
                line_px(d as int, x as int, y as int, t as int),
                line_py(d as int, x as int, y as int, t as int),
            ));
            cells[t] = grid[py * 15 + px];
            xs[t] = px;
            ys[t] = py;
            t = t + 1;
        }
        let line = DirectionalLine { cells, xs, ys, len, anchor };
        assert(line.view_seq() =~= line_seq(grid@, d as int, x as int, y as int));
        line
    }

    fn cell_with_extra(&self, index: usize, extra1: usize, extra2: usize) -> (c: Side)
        requires
            index < self.len,
            self.len <= 15,
        ensures
            c == cell_with_extra_spec(self.view_seq(), index as int, extra1 as int, extra2 as int),
    {
        if index == extra1 || index == extra2 {
            BLACK
        } else {
            self.cells[index]
        }
    }

    /// Bounds of the black run through `index` (with the two extra points black).
    fn black_run_bounds_with_extra(&self, index: usize, extra1: usize, extra2: usize) -> (r:
        Option<(usize, usize)>)
        requires
            self.len <= 15,
        ensures
            index >= self.len || cell_with_extra_spec(
                self.view_seq(),
                index as int,
                extra1 as int,
                extra2 as int,
            ) != BLACK ==> r.is_none(),
            index < self.len && cell_with_extra_spec(
                self.view_seq(),
                index as int,
                extra1 as int,
                extra2 as int,
            ) == BLACK ==> r == Some(
                (
                    (index - run_left(self.view_seq(), index as int, extra1 as int, extra2 as int))
                        as usize,
                    (index + run_right(self.view_seq(), index as int, extra1 as int, extra2 as int))
                        as usize,
                ),
            ),
    {
        let ghost s = self.view_seq();
        let ghost e1 = extra1 as int;
        let ghost e2 = extra2 as int;
        if index >= self.len || self.cell_with_extra(index, extra1, extra2) != BLACK {
            return None;
        }
        let mut start = index;
        while start > 0 && self.cell_with_extra(start - 1, extra1, extra2) == BLACK
            invariant
                self.len <= 15,
                index < self.len,
                start <= index,
                s == self.view_seq(),
                e1 == extra1 as int,
                e2 == extra2 as int,
                run_left(s, index as int, e1, e2) == (index - start) + run_left(
                    s,
                    start as int,
                    e1,
                    e2,
                ),
            decreases start,
        {
            start = start - 1;
        }
        let mut end = index;
        while end + 1 < self.len && self.cell_with_extra(end + 1, extra1, extra2) == BLACK
            invariant
                self.len <= 15,
                index <= end < self.len,
                s == self.view_seq(),
                e1 == extra1 as int,
                e2 == extra2 as int,
                s.len() == self.len,
                run_right(s, index as int, e1, e2) == (end - index) + run_right(
                    s,
                    end as int,
                    e1,
                    e2,
                ),
            decreases self.len - end,
        {
            end = end + 1;
        }
        Some((start, end))
    }

    fn anchor_run_len(&self) -> (n: usize)
        requires
            self.well_formed(),
            self.cells@[self.anchor as int] == BLACK,
        ensures
            n == anchor_run(self.view_seq(), self.anchor as int),
    {
        proof {
            lemma_run_left_bounds(self.view_seq(), self.anchor as int, no_extra(), no_extra());
            lemma_run_right_bounds(self.view_seq(), self.anchor as int, no_extra(), no_extra());
        }
        match self.black_run_bounds_with_extra(self.anchor, usize::MAX, usize::MAX) {
            Some((start, end)) => end - start + 1,
            None => 0,
        }
    }

    fn has_exact_five(&self) -> (b: bool)
        requires
            self.well_formed(),
            self.cells@[self.anchor as int] == BLACK,
        ensures
            b == (anchor_run(self.view_seq(), self.anchor as int) == 5),
    {
        self.anchor_run_len() == 5
    }

    fn has_overline(&self) -> (b: bool)
        requires
            self.well_formed(),
            self.cells@[self.anchor as int] == BLACK,
        ensures
            b == (anchor_run(self.view_seq(), self.anchor as int) >= 6),
    {
        self.anchor_run_len() >= 6
    }

    /// Returns `(no white, number of empties, position of the last empty)` of
    /// the window of five at `start`.
    fn scan_window(&self, start: usize) -> (r: (bool, usize, usize))
        requires
            self.well_formed(),
            start + 5 <= self.len,
        ensures
            r.0 == !window_has_white(self.view_seq(), start as int, 5),
            r.0 ==> r.1 == window_empties(self.view_seq(), start as int, 5),
            r.0 && r.1 == 1 ==> start <= r.2 < start + 5 && self.view_seq()[r.2 as int] == EMPTY,
    {
        let ghost s = self.view_seq();
        let mut k: usize = 0;
        let mut empties: usize = 0;
        let mut last_empty: usize = start;
        let mut clean = true;
        while k < 5
            invariant
                self.well_formed(),
                start + 5 <= self.len,
                s == self.view_seq(),
                k <= 5,
                clean == !window_has_white(s, start as int, k as int),
                clean ==> empties == window_empties(s, start as int, k as int),
                empties <= k,
                clean && empties >= 1 ==> start <= last_empty < start + k && s[last_empty as int]
                    == EMPTY,
            decreases 5 - k,
        {
            let c = self.cells[start + k];
            if c == EMPTY {
                empties = empties + 1;
                last_empty = start + k;
            } else if c != BLACK {
                clean = false;
            }
            k = k + 1;
        }
        (clean, empties, last_empty)
    }

    fn is_four_window(&self, start: usize) -> (r: (bool, usize))
        requires
            self.well_formed(),
            start + 5 <= self.len,
        ensures
            r.0 == four_window(self.view_seq(), start as int),
            r.0 ==> start <= r.1 < start + 5 && self.view_seq()[r.1 as int] == EMPTY,
            r.0 ==> (r.1 == start <==> self.view_seq()[start as int] == EMPTY),
            r.0 ==> (r.1 == start + 4 <==> self.view_seq()[start + 4] == EMPTY),
    {
        let ghost s = self.view_seq();
        let (clean, empties, empty_at) = self.scan_window(start);
        if !clean || empties != 1 {
            return (false, 0);
        }
        let left_open = start == 0 || self.cells[start - 1] != BLACK;
        let right_open = start + 5 == self.len || self.cells[start + 5] != BLACK;
        proof {
            if left_open && right_open {
                lemma_single_empty(s, start as int, empty_at as int);
            }
        }
        (left_open && right_open, empty_at)
    }

    fn count_four_shapes_through(&self) -> (n: usize)
        requires
            self.well_formed(),
        ensures
            n == four_shape_count(self.view_seq(), self.anchor as int),
            n <= 5,
    {
        let ghost s = self.view_seq();
        let ghost a = self.anchor as int;
        if self.len < 5 {
            return 0;
        }
        let start_min = if self.anchor >= 4 {
            self.anchor - 4
        } else {
            0
        };
        let start_max = if self.anchor <= self.len - 5 {
            self.anchor
        } else {
            self.len - 5
        };
        let mut count: usize = 0;
        let mut prev_valid = false;
        let mut prev_empty: usize = 0;
        let mut st = start_min;
        while st <= start_max
            invariant
                self.well_formed(),
                s == self.view_seq(),
                a == self.anchor,
                self.len >= 5,
                start_min == four_start_min(a),
                start_max == four_start_max(self.len as int, a),
                start_min <= st <= start_max + 1,
                count == four_count_upto(s, a, st as int),
                count <= st - start_min,
                st > start_min ==> prev_valid == four_window(s, st - 1),
                st > start_min && prev_valid ==> (prev_empty == st - 1 <==> s[st - 1] == EMPTY),
                st == start_min ==> !prev_valid,
            decreases start_max + 1 - st,
        {
            let (valid, empty_at) = self.is_four_window(st);
            let repeats = prev_valid && prev_empty == st - 1 && empty_at == st + 4;
            if valid && !repeats {
                count = count + 1;
            }
            prev_valid = valid;
            prev_empty = empty_at;
            st = st + 1;
        }
        count
    }

    /// The gain points of an open three through the anchor (left one first).
    fn open_three_gain_indices(&self) -> (r: ([usize; 2], usize))
        requires
            self.well_formed(),
        ensures
            r.1 <= 2,
            r.1 == gain_list(self.view_seq(), self.anchor as int).len(),
            forall|k: int|
                0 <= k < r.1 ==> r.0@[k] == gain_list(self.view_seq(), self.anchor as int)[k],
            forall|k: int| 0 <= k < r.1 ==> r.0@[k] < self.len,
    {
        let ghost s = self.view_seq();
        let mut gains = [usize::MAX; 2];
        let mut len: usize = 0;
        let mut index = self.anchor;
        let mut steps: usize = 0;
        let mut left: usize = usize::MAX;
        let mut done = false;
        while !done && steps < 4
            invariant
                self.well_formed(),
                s == self.view_seq(),
                index <= self.anchor,
                steps <= 4,
                !done ==> left == usize::MAX,
                left_gain_scan(s, self.anchor as int, 4) == if done {
                    if left == usize::MAX {
                        -1
                    } else {
                        left as int
                    }
                } else {
                    left_gain_scan(s, index as int, 4 - steps)
                },
            decreases (if done {
                0int
            } else {
                5 - steps
            }),
        {
            if index == 0 {
                done = true;
            } else {
                let c = self.cells[index - 1];
                if c == EMPTY {
                    left = index - 1;
                    done = true;
                } else if c == BLACK {
                    index = index - 1;
                    steps = steps + 1;
                } else {
                    done = true;
                }
            }
        }
        let ghost g1 = left_gain_scan(s, self.anchor as int, 4);
        assert(left != usize::MAX ==> g1 == left);
        assert(left == usize::MAX ==> g1 == -1);
        if left != usize::MAX {
            gains[len] = left;
            len = len + 1;
        }
        index = self.anchor;
        steps = 0;
        done = false;
        let mut right: usize = usize::MAX;
        while !done && steps < 4
            invariant
                self.well_formed(),
                s == self.view_seq(),
                self.anchor <= index < self.len,
                steps <= 4,
                !done ==> right == usize::MAX,
                right_gain_scan(s, self.anchor as int, 4) == if done {
                    if right == usize::MAX {
                        -1
                    } else {
                        right as int
                    }
                } else {
                    right_gain_scan(s, index as int, 4 - steps)
                },
            decreases (if done {
                0int
            } else {
                5 - steps
            }),
        {
            if index + 1 >= self.len {
                done = true;
            } else {
                let c = self.cells[index + 1];
                if c == EMPTY {
                    right = index + 1;
                    done = true;
                } else if c == BLACK {
                    index = index + 1;
                    steps = steps + 1;
                } else {
                    done = true;
                }
            }
        }
        let ghost g2 = right_gain_scan(s, self.anchor as int, 4);
        assert(right != usize::MAX ==> g2 == right);
        assert(right == usize::MAX ==> g2 == -1);
        if right != usize::MAX {
            gains[len] = right;
            len = len + 1;
        }
        proof {
            lemma_gain_list(s, self.anchor as int);
            let gl = gain_list(s, self.anchor as int);
            assert forall|k: int| 0 <= k < len implies gains@[k] < self.len by {
                assert(gains@[k] == gl[k]);
            }
        }
        (gains, len)
    }

    fn has_open_four_through_gain(&self, gain: usize) -> (b: bool)
        requires
            self.well_formed(),
            gain < self.len,
        ensures
            b == open_four_through_gain(self.view_seq(), self.anchor as int, gain as int),
    {
        let ghost s = self.view_seq();
        let ghost a = self.anchor as int;
        let mut winning_extensions: usize = 0;
        let start = if self.anchor >= 5 {
            self.anchor - 5
        } else {
            0
        };
        let end = if self.len <= self.anchor + 6 {
            self.len
        } else {
            self.anchor + 6
        };
        let mut e = start;
        while e < end
            invariant
                self.well_formed(),
                gain < self.len,
                s == self.view_seq(),
                a == self.anchor,
                start == ext_start(a),
                end == ext_end(self.len as int, a),
                start <= e <= end,
                winning_extensions == extension_count_upto(s, a, gain as int, e as int),
                winning_extensions < 2,
            decreases end - e,
        {
            if e != self.anchor && e != gain && self.cells[e] == EMPTY {
                proof {
                    lemma_run_left_bounds(s, e as int, gain as int, e as int);
                    lemma_run_right_bounds(s, e as int, gain as int, e as int);
                }
                match self.black_run_bounds_with_extra(e, gain, e) {
                    Some((run_start, run_end)) => {
                        if run_end - run_start + 1 == 5 && run_start <= self.anchor && self.anchor
                            <= run_end && run_start <= gain && gain <= run_end {
                            winning_extensions = winning_extensions + 1;
                            if winning_extensions >= 2 {
                                proof {
                                    lemma_extension_count_monotone(
                                        s,
                                        a,
                                        gain as int,
                                        e + 1,
                                        ext_end(self.len as int, a),
                                    );
                                }
                                return true;
                            }
                        }
                    },
                    None => {},
                }
            }
            e = e + 1;
        }
        false
    }
}

proof fn lemma_single_empty(s: Seq<Side>, st: int, at: int)
    requires
        0 <= st,
        st + 5 <= s.len(),
        forall|t: int| 0 <= t < s.len() ==> valid_cell(#[trigger] s[t]),
        !window_has_white(s, st, 5),
        window_empties(s, st, 5) == 1,
        st <= at < st + 5,
        s[at] == EMPTY,
    ensures
        at == st <==> s[st] == EMPTY,
        at == st + 4 <==> s[st + 4] == EMPTY,
{
    reveal_with_fuel(window_empties, 6);
}

proof fn lemma_extension_count_monotone(s: Seq<Side>, a: int, g: int, e1: int, e2: int)
    requires
        ext_start(a) <= e1 <= e2,
    ensures
        extension_count_upto(s, a, g, e1) <= extension_count_upto(s, a, g, e2),
    decreases e2 - e1,
{
    if e1 < e2 {
        lemma_extension_count_monotone(s, a, g, e1, e2 - 1);
    }
}


// ---------------------------------------------------------------------------
// Executable classification on a flat grid (`grid[y * 15 + x]`).
// ---------------------------------------------------------------------------

proof fn lemma_line_cell(cells: Seq<Side>, d: int, x: int, y: int, t: int)
    requires
        grid_cells(cells),
        on_board(x, y),
        is_direction(d),
        0 <= t < line_len(d, x, y),
    ensures
        line_seq(cells, d, x, y)[t] == cells[line_py(d, x, y, t) * 15 + line_px(d, x, y, t)],
        on_board(line_px(d, x, y, t), line_py(d, x, y, t)),
{
    lemma_line_geometry(d, x, y);
    assert(on_board(line_px(d, x, y, t), line_py(d, x, y, t)));
}

fn dir_anchor_run(grid: &[Side; BOARD_AREA], x: usize, y: usize, d: usize) -> (n: usize)
    requires
        x < 15,
        y < 15,
        d < 4,
        grid_cells(grid@),
        grid@[y * 15 + x] == BLACK,
    ensures
        n == anchor_run(line_seq(grid@, d as int, x as int, y as int), line_anchor(d as int, x as int, y as int)),
{
    let line = DirectionalLine::from_grid(grid, x, y, d);
    proof {
        lemma_line_geometry(d as int, x as int, y as int);
        lemma_line_cell(grid@, d as int, x as int, y as int, line.anchor as int);
        assert(line.view_seq()[line.anchor as int] == line.cells@[line.anchor as int]);
    }
    line.anchor_run_len()
}

pub fn has_exact_five(grid: &[Side; BOARD_AREA], x: usize, y: usize) -> (b: bool)
    requires
        x < 15,
        y < 15,
        grid_cells(grid@),
        grid@[y * 15 + x] == BLACK,
    ensures
        b == has_exact_five_spec(grid@, x as int, y as int),
{
    dir_anchor_run(grid, x, y, 0) == 5 || dir_anchor_run(grid, x, y, 1) == 5 || dir_anchor_run(
        grid,
        x,
        y,
        2,
    ) == 5 || dir_anchor_run(grid, x, y, 3) == 5
}

pub fn has_overline(grid: &[Side; BOARD_AREA], x: usize, y: usize) -> (b: bool)
    requires
        x < 15,
        y < 15,
        grid_cells(grid@),
        grid@[y * 15 + x] == BLACK,
    ensures
        b == has_overline_spec(grid@, x as int, y as int),
{
    dir_anchor_run(grid, x, y, 0) >= 6 || dir_anchor_run(grid, x, y, 1) >= 6 || dir_anchor_run(
        grid,
        x,
        y,
        2,
    ) >= 6 || dir_anchor_run(grid, x, y, 3) >= 6
}

pub fn count_four_shapes_through(grid: &[Side; BOARD_AREA], x: usize, y: usize, d: usize) -> (n: usize)
    requires
        x < 15,
        y < 15,
        d < 4,
        grid_cells(grid@),
    ensures
        n == four_count_dir(grid@, x as int, y as int, d as int),
        n <= 5,
{
    let line = DirectionalLine::from_grid(grid, x, y, d);
    line.count_four_shapes_through()
}

fn count_four_directions(grid: &[Side; BOARD_AREA], x: usize, y: usize) -> (n: usize)
    requires
        x < 15,
        y < 15,
        grid_cells(grid@),
    ensures
        n == four_count_spec(grid@, x as int, y as int),
{
    count_four_shapes_through(grid, x, y, 0) + count_four_shapes_through(grid, x, y, 1)
        + count_four_shapes_through(grid, x, y, 2) + count_four_shapes_through(grid, x, y, 3)
}

fn classify_placed_black(grid: &mut [Side; BOARD_AREA], x: usize, y: usize) -> (kind: ForbiddenKind)
    requires
        x < 15,
        y < 15,
        grid_cells(old(grid)@),
        old(grid)@[y * 15 + x] == BLACK,
    ensures
        final(grid)@ == old(grid)@,
        kind == placed_kind(old(grid)@, x as int, y as int),
    decreases count_empty(old(grid)@), 6int,
{
    proof {
        
    }
    if has_exact_five(grid, x, y) {
        return ForbiddenKind::NotForbidden;
    }
    if has_overline(grid, x, y) {
        return ForbiddenKind::Overline;
    }
    if count_four_directions(grid, x, y) >= 2 {
        return ForbiddenKind::DoubleFour;
    }
    if count_true_open_three_directions(grid, x, y) >= 2 {
        return ForbiddenKind::DoubleThree;
    }
    ForbiddenKind::NotForbidden
}

fn count_true_open_three_directions(grid: &mut [Side; BOARD_AREA], x: usize, y: usize) -> (n:
    usize)
    requires
        x < 15,
        y < 15,
        grid_cells(old(grid)@),
        old(grid)@[y * 15 + x] == BLACK,
    ensures
        final(grid)@ == old(grid)@,
        n == (if true_three_dir(old(grid)@, x as int, y as int, 0) {
            1int
        } else {
            0int
        }) + (if true_three_dir(old(grid)@, x as int, y as int, 1) {
            1int
        } else {
            0int
        }) + (if true_three_dir(old(grid)@, x as int, y as int, 2) {
            1int
        } else {
            0int
        }) + (if true_three_dir(old(grid)@, x as int, y as int, 3) {
            1int
        } else {
            0int
        }),
    decreases count_empty(old(grid)@), 5int,
{
    let mut n: usize = 0;
    if is_true_open_three_direction(grid, x, y, 0) {
        n = n + 1;
    }
    if is_true_open_three_direction(grid, x, y, 1) {
        n = n + 1;
    }
    if is_true_open_three_direction(grid, x, y, 2) {
        n = n + 1;
    }
    if is_true_open_three_direction(grid, x, y, 3) {
        n = n + 1;
    }
    n
}

fn is_true_open_three_direction(grid: &mut [Side; BOARD_AREA], x: usize, y: usize, d: usize) -> (b:
    bool)
    requires
        x < 15,
        y < 15,
        d < 4,
        grid_cells(old(grid)@),
        old(grid)@[y * 15 + x] == BLACK,
    ensures
        final(grid)@ == old(grid)@,
        b == true_three_dir(old(grid)@, x as int, y as int, d as int),
    decreases count_empty(old(grid)@), 4int,
{
    let ghost cells = grid@;
    proof {
        lemma_true_three_list(cells, d as int, x as int, y as int);
    }
    if count_four_shapes_through(grid, x, y, d) > 0 {
        return false;
    }
    let line = DirectionalLine::from_grid(grid, x, y, d);
    let (gains, gain_count) = line.open_three_gain_indices();
    let ghost gl = gain_list(line.view_seq(), line.anchor as int);
    proof {
        lemma_gain_list(line.view_seq(), line.anchor as int);
    }
    if gain_count >= 1 && line.gain_through_legal(grid, x, y, d, gains[0]) {
        return true;
    }
    if gain_count >= 2 && line.gain_through_legal(grid, x, y, d, gains[1]) {
        return true;
    }
    false
}

impl DirectionalLine {
    /// The gain makes an open four and black may legally play it.
    fn gain_through_legal(
        &self,
        grid: &mut [Side; BOARD_AREA],
        x: usize,
        y: usize,
        d: usize,
        gain: usize,
    ) -> (b: bool)
        requires
            grid_cells(old(grid)@),
            x < 15,
            y < 15,
            d < 4,
            self.matches(old(grid)@, d as int, x as int, y as int),
            self.well_formed(),
            gain < self.len,
            self.view_seq()[gain as int] == EMPTY,
        ensures
            final(grid)@ == old(grid)@,
            b == gain_ok(old(grid)@, d as int, x as int, y as int, gain as int),
        decreases count_empty(old(grid)@), 2int,
    {
        let ghost cells = grid@;
        let gx = self.xs[gain];
        let gy = self.ys[gain];
        let open = self.has_open_four_through_gain(gain);
        proof {
            lemma_line_cell(cells, d as int, x as int, y as int, gain as int);
            
        }
        if !open {
            return false;
        }
        is_legal_black_gain(grid, gx, gy)
    }
}

proof fn lemma_gain_list(s: Seq<Side>, a: int)
    requires
        0 <= a < s.len(),
    ensures
        gain_list(s, a).len() <= 2,
        forall|j: int|
            0 <= j < gain_list(s, a).len() ==> 0 <= #[trigger] gain_list(s, a)[j] < s.len() && s[gain_list(s, a)[j]]
                == EMPTY,
{
    lemma_gain_is_empty(s, a);
}

proof fn lemma_gain_is_empty(s: Seq<Side>, a: int)
    requires
        0 <= a < s.len(),
    ensures
        left_gain_scan(s, a, 4) >= 0 ==> 0 <= left_gain_scan(s, a, 4) < s.len() && s[left_gain_scan(s, a, 4)] == EMPTY,
        right_gain_scan(s, a, 4) >= 0 ==> 0 <= right_gain_scan(s, a, 4) < s.len() && s[right_gain_scan(s, a, 4)] == EMPTY,
{
    lemma_left_scan(s, a, 4);
    lemma_right_scan(s, a, 4);
}

proof fn lemma_left_scan(s: Seq<Side>, i: int, steps: int)
    requires
        0 <= i < s.len(),
    ensures
        left_gain_scan(s, i, steps) >= 0 ==> 0 <= left_gain_scan(s, i, steps) < i && s[left_gain_scan(s, i, steps)] == EMPTY,
    decreases steps,
{
    if steps > 0 && i > 0 && s[i - 1] != EMPTY && s[i - 1] == BLACK {
        lemma_left_scan(s, i - 1, steps - 1);
    }
}

proof fn lemma_right_scan(s: Seq<Side>, i: int, steps: int)
    requires
        0 <= i < s.len(),
    ensures
        right_gain_scan(s, i, steps) >= 0 ==> i < right_gain_scan(s, i, steps) < s.len() && s[right_gain_scan(s, i, steps)] == EMPTY,
    decreases steps,
{
    if steps > 0 && i + 1 < s.len() && s[i + 1] != EMPTY && s[i + 1] == BLACK {
        lemma_right_scan(s, i + 1, steps - 1);
    }
}

fn is_legal_black_gain(grid: &mut [Side; BOARD_AREA], x: usize, y: usize) -> (legal: bool)
    requires
        x < 15,
        y < 15,
        grid_cells(old(grid)@),
        old(grid)@[y * 15 + x] == EMPTY,
    ensures
        final(grid)@ == old(grid)@,
        legal == legal_gain(old(grid)@, x as int, y as int),
    decreases count_empty(old(grid)@), 1int,
{
    let ghost cells = grid@;
    let idx = y * 15 + x;
    proof {
        lemma_count_empty_update(cells, idx as int, BLACK);
        
    }
    grid[idx] = BLACK;
    assert(grid@ == cells.update(idx as int, BLACK));
    let kind = classify_placed_black(grid, x, y);
    let legal = matches!(kind, ForbiddenKind::NotForbidden);
    grid[idx] = EMPTY;
    assert(grid@ =~= cells);
    legal
}

fn classify_black_move_on_grid(grid: &mut [Side; BOARD_AREA], x: usize, y: usize) -> (kind:
    ForbiddenKind)
    requires
        x < 15,
        y < 15,
        grid_cells(old(grid)@),
        old(grid)@[y * 15 + x] == EMPTY,
    ensures
        final(grid)@ == old(grid)@,
        kind == forbidden_kind_at(old(grid)@, x as int, y as int),
{
    let ghost cells = grid@;
    let idx = y * 15 + x;
    grid[idx] = BLACK;
    assert(grid@ == cells.update(idx as int, BLACK));
    let kind = classify_placed_black(grid, x, y);
    grid[idx] = EMPTY;
    assert(grid@ =~= cells);
    kind
}

/// The Renju verdict for `side` playing `move_` on `board`.
pub open spec fn classify_spec(board_cells: Seq<Side>, move_: Move, side: Side, rule: RuleSet) -> Result<ForbiddenKind, BoardError> {
    if move_ >= BOARD_AREA {
        Err(BoardError::MoveOutOfRange(move_))
    } else if !valid_side(side) {
        Err(BoardError::InvalidSide(side))
    } else if board_cells[move_ as int] != EMPTY {
        Err(BoardError::IllegalMove(move_))
    } else if rule != RuleSet::Renju || side != BLACK {
        Ok(ForbiddenKind::NotForbidden)
    } else {
        Ok(forbidden_kind_at(board_cells, (move_ % 15) as int, (move_ / 15) as int))
    }
}

pub fn classify_forbidden_move(board: &Board, move_: Move, side: Side, rule: RuleSet) -> (r: Result<
    ForbiddenKind,
    BoardError,
>)
    requires
        board.wf(),
    ensures
        r == classify_spec(board@.cells, move_, side, rule),
{
    let (x, y) = match move_to_xy(move_) {
        Ok(p) => p,
        Err(e) => return Err(e),
    };
    if !is_valid_side(side) {
        return Err(BoardError::InvalidSide(side));
    }
    let c = match board.at(x, y) {
        Ok(c) => c,
        Err(e) => return Err(e),
    };
    if c != EMPTY {
        return Err(BoardError::IllegalMove(move_));
    }
    if !matches!(rule, RuleSet::Renju) || side != BLACK {
        return Ok(ForbiddenKind::NotForbidden);
    }
    let mut grid = board.grid_copy();
    Ok(classify_black_move_on_grid(&mut grid, x, y))
}

/// The grid that `classify_forbidden_stones` builds from the first `k` stones,
/// or the error of the first bad stone.
pub open spec fn stones_grid(stones: Seq<(usize, usize, Side)>, k: int) -> Result<Seq<Side>, BoardError>
    decreases k,
{
    if k <= 0 {
        Ok(Seq::new(BOARD_AREA as nat, |i: int| EMPTY))
    } else {
        match stones_grid(stones, k - 1) {
            Err(e) => Err(e),
            Ok(g) => {
                let (x, y, s) = stones[k - 1];
                if !valid_side(s) {
                    Err(BoardError::InvalidSide(s))
                } else if !(x < 15 && y < 15) {
                    Err(BoardError::CoordinatesOutOfRange { x, y })
                } else if g[y * 15 + x] != EMPTY {
                    Err(BoardError::IllegalMove((y * 15 + x) as Move))
                } else {
                    Ok(g.update(y * 15 + x, s))
                }
            },
        }
    }
}

pub open spec fn classify_stones_spec(
    stones: Seq<(usize, usize, Side)>,
    candidate: (usize, usize),
    side: Side,
    rule: RuleSet,
) -> Result<ForbiddenKind, BoardError> {
    if !(candidate.0 < 15 && candidate.1 < 15) {
        Err(BoardError::CoordinatesOutOfRange { x: candidate.0, y: candidate.1 })
    } else if !valid_side(side) {
        Err(BoardError::InvalidSide(side))
    } else {
        match stones_grid(stones, stones.len() as int) {
            Err(e) => Err(e),
            Ok(g) => if g[candidate.1 * 15 + candidate.0] != EMPTY {
                Err(BoardError::IllegalMove((candidate.1 * 15 + candidate.0) as Move))
            } else if rule != RuleSet::Renju || side != BLACK {
                Ok(ForbiddenKind::NotForbidden)
            } else {
                Ok(forbidden_kind_at(g, candidate.0 as int, candidate.1 as int))
            },
        }
    }
}

/// Classifying from a list of stones is classifying on the board that holds
/// them: once the candidate is on the board, the side is valid and the
/// stones can be placed, the answer is that of `classify_forbidden_move` on
/// a board whose cells are the placed stones.
#[verifier::rlimit(40)]
pub proof fn lemma_stones_classify_as_board(
    stones: Seq<(usize, usize, Side)>,
    candidate: (usize, usize),
    side: Side,
    rule: RuleSet,
)
    requires
        candidate.0 < 15 && candidate.1 < 15,
        valid_side(side),
        stones_grid(stones, stones.len() as int) is Ok,
    ensures
        classify_stones_spec(stones, candidate, side, rule) == classify_spec(
            stones_grid(stones, stones.len() as int)->Ok_0,
            (candidate.1 * 15 + candidate.0) as Move,
            side,
            rule,
        ),
{
    let m = (candidate.1 * 15 + candidate.0) as Move;
    let (cx, cy) = (candidate.0 as int, candidate.1 as int);
    assert(m as int == cy * 15 + cx);
    assert((cy * 15 + cx) % 15 == cx && (cy * 15 + cx) / 15 == cy) by (nonlinear_arith)
        requires
            0 <= cx < 15,
            0 <= cy < 15,
    ;
}

proof fn lemma_stones_err_persists(stones: Seq<(usize, usize, Side)>, k: int, j: int)
    requires
        0 <= k <= j,
        stones_grid(stones, k) is Err,
    ensures
        stones_grid(stones, j) == stones_grid(stones, k),
    decreases j - k,
{
    if j > k {
        lemma_stones_err_persists(stones, k, j - 1);
    }
}

proof fn lemma_stones_grid_cells(stones: Seq<(usize, usize, Side)>, k: int)
    requires
        0 <= k <= stones.len(),
    ensures
        stones_grid(stones, k) is Ok ==> grid_cells(stones_grid(stones, k)->Ok_0),
    decreases k,
{
    if k > 0 {
        lemma_stones_grid_cells(stones, k - 1);
    }
}

pub fn classify_forbidden_stones(
    stones: &[(usize, usize, Side)],
    candidate: (usize, usize),
    side: Side,
    rule: RuleSet,
) -> (r: Result<ForbiddenKind, BoardError>)
    ensures
        r == classify_stones_spec(stones@, candidate, side, rule),
{
    let candidate_move = match xy_to_move(candidate.0, candidate.1) {
        Ok(m) => m,
        Err(e) => return Err(e),
    };
    if !is_valid_side(side) {
        return Err(BoardError::InvalidSide(side));
    }
    let mut grid = [EMPTY; BOARD_AREA];
    let mut k: usize = 0;
    assert(grid@ =~= Seq::new(BOARD_AREA as nat, |i: int| EMPTY));
    while k < stones.len()
        invariant
            k <= stones@.len(),
            candidate.0 < 15 && candidate.1 < 15,
            valid_side(side),
            stones_grid(stones@, k as int) == Ok::<Seq<Side>, BoardError>(grid@),
            grid_cells(grid@),
        decreases stones@.len() - k,
    {
        let (x, y, stone_side) = stones[k];
        if !is_valid_side(stone_side) {
            proof {
                lemma_stones_err_persists(stones@, k + 1, stones@.len() as int);
            }
            return Err(BoardError::InvalidSide(stone_side));
        }
        let move_ = match xy_to_move(x, y) {
            Ok(m) => m,
            Err(e) => {
                proof {
                    lemma_stones_err_persists(stones@, k + 1, stones@.len() as int);
                }
                return Err(e);
            },
        };
        if grid[y * 15 + x] != EMPTY {
            proof {
                lemma_stones_err_persists(stones@, k + 1, stones@.len() as int);
            }
            return Err(BoardError::IllegalMove(move_));
        }
        grid[y * 15 + x] = stone_side;
        k = k + 1;
    }
    if grid[candidate.1 * 15 + candidate.0] != EMPTY {
        return Err(BoardError::IllegalMove(candidate_move));
    }
    if !matches!(rule, RuleSet::Renju) || side != BLACK {
        return Ok(ForbiddenKind::NotForbidden);
    }
    Ok(classify_black_move_on_grid(&mut grid, candidate.0, candidate.1))
}

} // verus!
