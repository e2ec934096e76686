//! Root search: the classic fallback move picker and its random number
//! generator, and the root driver's decisions around the alpha-beta search.
use vstd::prelude::*;

use std::collections::HashSet;

use crate::board::{Board, BoardModel};
use crate::config::{EngineSettings, RuntimeOptions};
use crate::constants::{BOARD_AREA, INF, WIN};
use crate::eval::caches::EvalCaches;
use crate::rules::RuleSet;
use crate::search::root_filter::{
    allowed_set, apply_opponent_vcf_filter, filter_candidates, survives_opponent_vcf, trial_after,
    verify_root_vct_move,
};
use crate::search::root_window::{has_stone, in_window, root_allowed_moves, root_window};
use crate::threats::threat_board::{forcing_threats_spec, has_vct_trigger, vct_trigger_spec};
use crate::threats::vcf::{normalized_depth, vcf_outcome, VCFSearcher};
use crate::threats::vct::{vct_outcome, VCTSearcher};
use crate::types::{Move, Side};

verus! {

pub const CLASSIC_RAND_SEED: i32 = 1_232_356;

const CLASSIC_FALLBACK_FPTR: usize = 25;

const CLASSIC_FALLBACK_RPTR: usize = 22;

/// The additive feedback generator's table after seeding with the classic seed.
fn classic_fallback_state() -> (s: [u32; 31])
    ensures
        s@ == classic_state_spec(),
{
    let s: [u32; 31] = [
        3344391599,
        3760159923,
        229790648,
        3328593876,
        529145457,
        4021946065,
        1735816513,
        469166854,
        1730624144,
        2908500504,
        649120694,
        3012569930,
        473519764,
        1775465023,
        936985512,
        994684877,
        4231614135,
        825016603,
        3651181685,
        2927649197,
        4259523512,
        1063826198,
        2094918629,
        2306226027,
        4013509952,
        563982589,
        367722354,
        742065300,
        1591101748,
        477268195,
        3720283884,
    ];
    assert(s@ =~= classic_state_spec());
    s
}

pub open spec fn classic_state_spec() -> Seq<u32> {
    seq![
        3344391599u32,
        3760159923,
        229790648,
        3328593876,
        529145457,
        4021946065,
        1735816513,
        469166854,
        1730624144,
        2908500504,
        649120694,
        3012569930,
        473519764,
        1775465023,
        936985512,
        994684877,
        4231614135,
        825016603,
        3651181685,
        2927649197,
        4259523512,
        1063826198,
        2094918629,
        2306226027,
        4013509952,
        563982589,
        367722354,
        742065300,
        1591101748,
        477268195,
        3720283884,
    ]
}

#[derive(Clone, Copy, Debug, PartialEq, Eq, Structural)]
pub struct SearchResult {
    pub move_: Move,
    pub score: i32,
    pub depth: i32,
    pub nodes: usize,
}

/// The additive feedback generator (31 words, taps 25 and 22 ahead) that the
/// classic engine draws its fallback choices from.
#[derive(Clone, Debug)]
pub struct ClassicFallbackRng {
    state: [u32; 31],
    fptr: usize,
    rptr: usize,
}

/// The generator's state as plain values: the table and the two taps.
pub struct RngModel {
    pub state: Seq<u32>,
    pub fptr: int,
    pub rptr: int,
}

/// The next raw word of the generator.
pub open spec fn rng_word(m: RngModel) -> u32 {
    m.state[m.fptr].wrapping_add(m.state[m.rptr])
}

/// The generator after one draw.
pub open spec fn rng_next(m: RngModel) -> RngModel {
    RngModel {
        state: m.state.update(m.fptr, rng_word(m)),
        fptr: (m.fptr + 1) % 31,
        rptr: (m.rptr + 1) % 31,
    }
}

/// A draw below `upper`: the word's upper 31 bits modulo `upper`.
pub open spec fn rng_draw(m: RngModel, upper: int) -> int {
    (((rng_word(m) >> 1u32) & 0x7FFF_FFFFu32) as int) % upper
}

impl ClassicFallbackRng {
    pub closed spec fn model(&self) -> RngModel {
        RngModel { state: self.state@, fptr: self.fptr as int, rptr: self.rptr as int }
    }

    pub closed spec fn wf(&self) -> bool {
        self.fptr < 31 && self.rptr < 31
    }

    /// The generator seeded with the classic seed; other seeds are refused.
    pub fn new(seed: i32) -> (r: Result<Self, &'static str>)
        ensures
            seed == CLASSIC_RAND_SEED <==> r.is_ok(),
            r matches Ok(g) ==> g.wf() && g.model() == (RngModel {
                state: classic_state_spec(),
                fptr: 25,
                rptr: 22,
            }),
    {
        if seed != CLASSIC_RAND_SEED {
            return Err("only the classic fallback seed is supported");
        }
        Ok(
            ClassicFallbackRng {
                state: classic_fallback_state(),
                fptr: CLASSIC_FALLBACK_FPTR,
                rptr: CLASSIC_FALLBACK_RPTR,
            },
        )
    }

    /// A number below `upper`, or an error for `upper == 0`.
    pub fn randrange(&mut self, upper: usize) -> (r: Result<usize, &'static str>)
        requires
            old(self).wf(),
        ensures
            final(self).wf(),
            upper == 0 ==> r.is_err() && final(self).model() == old(self).model(),
            upper > 0 ==> r == Ok::<usize, &'static str>(rng_draw(old(self).model(), upper as int) as usize)
                && final(self).model() == rng_next(old(self).model()),
            r matches Ok(v) ==> v < upper,
    {
        if upper == 0 {
            return Err("upper must be positive");
        }
        let value = self.state[self.fptr].wrapping_add(self.state[self.rptr]);
        self.state[self.fptr] = value;
        self.fptr = (self.fptr + 1) % 31;
        self.rptr = (self.rptr + 1) % 31;
        let bits: u32 = (value >> 1u32) & 0x7FFF_FFFFu32;
        let drawn = (bits as usize) % upper;
        assert(self.model().state =~= rng_next(old(self).model()).state);
        Ok(drawn)
    }
}

pub fn new_classic_fallback_rng() -> (g: ClassicFallbackRng)
    ensures
        g.wf(),
        g.model() == (RngModel { state: classic_state_spec(), fptr: 25, rptr: 22 }),
{
    ClassicFallbackRng {
        state: classic_fallback_state(),
        fptr: CLASSIC_FALLBACK_FPTR,
        rptr: CLASSIC_FALLBACK_RPTR,
    }
}

// ---------------------------------------------------------------------------
// The fallback move scores.
// ---------------------------------------------------------------------------

pub open spec fn shape_label_spec(shape: i32) -> i32 {
    (shape >> 16u32) & 0xF
}

pub open spec fn shape_aux_spec(shape: i32) -> i32 {
    shape & 0xF
}

pub open spec fn ind(b: bool) -> int {
    if b {
        1
    } else {
        0
    }
}

/// The number of the four shapes with label `v`.
pub open spec fn count_label(shapes: [i32; 4], v: i32) -> int {
    ind(shape_label_spec(shapes[0]) == v) + ind(shape_label_spec(shapes[1]) == v) + ind(
        shape_label_spec(shapes[2]) == v,
    ) + ind(shape_label_spec(shapes[3]) == v)
}

pub open spec fn is_two(shape: i32) -> bool {
    4 <= shape_label_spec(shape) <= 6
}

pub open spec fn is_three(shape: i32) -> bool {
    shape_label_spec(shape) == 9 || shape_label_spec(shape) == 8
}

/// The number of the four shapes that are twos (labels 4 to 6).
pub open spec fn twos(shapes: [i32; 4]) -> int {
    ind(is_two(shapes[0])) + ind(is_two(shapes[1])) + ind(is_two(shapes[2])) + ind(is_two(shapes[3]))
}

/// A shape's four count: its aux count for a broken four, one for an open four.
pub open spec fn four_weight(shape: i32) -> int {
    if shape_label_spec(shape) == 10 {
        shape_aux_spec(shape) as int
    } else if shape_label_spec(shape) == 11 {
        1
    } else {
        0
    }
}

pub open spec fn fours(shapes: [i32; 4]) -> int {
    four_weight(shapes[0]) + four_weight(shapes[1]) + four_weight(shapes[2]) + four_weight(shapes[3])
}

/// The number of the four shapes that are open threes (labels 8 and 9).
pub open spec fn threes(shapes: [i32; 4]) -> int {
    ind(is_three(shapes[0])) + ind(is_three(shapes[1])) + ind(is_three(shapes[2])) + ind(
        is_three(shapes[3]),
    )
}

/// The attacking value of a point from the mover's four shapes.
#[verifier::opaque]
pub open spec fn offensive_spec(shapes: [i32; 4]) -> int {
    let a3 = threes(shapes);
    let b4 = fours(shapes);
    count_label(shapes, 2) + count_label(shapes, 3) + 5 * twos(shapes) + 10 * count_label(shapes, 7)
        + 12 * a3 + 16 * b4 + 100 * ind(a3 >= 2) + 3000 * ind(b4 > 0 && a3 > 0) + 4000 * ind(b4 >= 2)
        + 6000 * count_label(shapes, 11) + 1_000_000 * count_label(shapes, 12)
}

/// The blocking value of a point from the opponent's four shapes.
#[verifier::opaque]
pub open spec fn defensive_spec(shapes: [i32; 4]) -> int {
    let a3 = threes(shapes);
    let b4 = fours(shapes);
    twos(shapes) + count_label(shapes, 7) + 6 * a3 + 11 * b4 + 15 * ind(a3 >= 2) + 1500 * ind(b4 > 0
        && a3 > 0) + 2000 * ind(b4 >= 2) + 3000 * count_label(shapes, 11) + 50_000 * count_label(
        shapes,
        12,
    )
}

pub open spec fn player_index(side: Side) -> int {
    if side == 1 {
        0
    } else {
        1
    }
}

/// The fallback score of point `m` for `side`.
#[verifier::opaque]
pub open spec fn fallback_score(caches: EvalCaches, side: Side, m: int) -> int {
    let p = player_index(side);
    let x = m % 15;
    let y = m / 15;
    5 * offensive_spec(caches.shape_cache[p][x][y]) + 5 * defensive_spec(
        caches.shape_cache[1 - p][x][y],
    )
}

/// The best score and the points that reach it among the first `k` legal
/// points, in point order.
pub open spec fn fallback_scan(bm: BoardModel, caches: EvalCaches, side: Side, k: int) -> (int, Seq<Move>)
    decreases k,
{
    if k <= 0 {
        (i64::MIN as int, Seq::empty())
    } else {
        let (best, moves) = fallback_scan(bm, caches, side, k - 1);
        let m = k - 1;
        if !bm.legal(m as Move) {
            (best, moves)
        } else if fallback_score(caches, side, m) > best {
            (fallback_score(caches, side, m), seq![m as Move])
        } else if fallback_score(caches, side, m) == best {
            (best, moves.push(m as Move))
        } else {
            (best, moves)
        }
    }
}

/// Some point is a legal move.
pub open spec fn has_legal_move(bm: BoardModel) -> bool {
    exists|m: Move| m < BOARD_AREA && bm.legal(m)
}

pub open spec fn fallback_candidates(bm: BoardModel, caches: EvalCaches, side: Side) -> Seq<Move> {
    fallback_scan(bm, caches, side, BOARD_AREA as int).1
}

fn label_of(shape: i32) -> (l: i32)
    ensures
        l == shape_label_spec(shape),
        0 <= l < 16,
{
    let l = (shape >> 16u32) & 0xF;
    assert(0 <= ((shape >> 16u32) & 0xF) < 16) by (bit_vector);
    l
}

fn aux_of(shape: i32) -> (a: i32)
    ensures
        a == shape_aux_spec(shape),
        0 <= a < 16,
{
    let a = shape & 0xF;
    assert(0 <= (shape & 0xF) < 16) by (bit_vector);
    a
}

/// The label counts of one shape.
#[derive(Clone, Copy)]
struct ShapeCounts {
    a1: i64,
    b2: i64,
    a2: i64,
    b3: i64,
    a3: i64,
    b4: i64,
    a4: i64,
    a5: i64,
}

fn counts_of(shape: i32) -> (c: ShapeCounts)
    ensures
        c.a1 == ind(shape_label_spec(shape) == 2),
        c.b2 == ind(shape_label_spec(shape) == 3),
        c.a2 == ind(is_two(shape)),
        c.b3 == ind(shape_label_spec(shape) == 7),
        c.a3 == ind(is_three(shape)),
        c.b4 == four_weight(shape),
        c.a4 == ind(shape_label_spec(shape) == 11),
        c.a5 == ind(shape_label_spec(shape) == 12),
        0 <= c.b4 < 16,
{
    let label = label_of(shape);
    let mut c = ShapeCounts { a1: 0, b2: 0, a2: 0, b3: 0, a3: 0, b4: 0, a4: 0, a5: 0 };
    if label == 2 {
        c.a1 = 1;
    } else if label == 3 {
        c.b2 = 1;
    } else if label == 9 || label == 8 {
        c.a3 = 1;
    } else if label == 10 {
        c.b4 = aux_of(shape) as i64;
    } else if label == 12 {
        c.a5 = 1;
    } else if label == 7 {
        c.b3 = 1;
    } else if 4 <= label && label <= 6 {
        c.a2 = 1;
    } else if label == 11 {
        c.a4 = 1;
        c.b4 = 1;
    }
    c
}

/// The offensive (`attacking`) or defensive value of the four shapes.
#[verifier::spinoff_prover]
fn shape_value(shapes: [i32; 4], attacking: bool) -> (v: i64)
    ensures
        attacking ==> v == offensive_spec(shapes),
        !attacking ==> v == defensive_spec(shapes),
        0 <= v <= 5_000_000,
{
    let c0 = counts_of(shapes[0]);
    let c1 = counts_of(shapes[1]);
    let c2 = counts_of(shapes[2]);
    let c3 = counts_of(shapes[3]);
    let a1 = c0.a1 + c1.a1 + c2.a1 + c3.a1;
    let b2 = c0.b2 + c1.b2 + c2.b2 + c3.b2;
    let a2 = c0.a2 + c1.a2 + c2.a2 + c3.a2;
    let b3 = c0.b3 + c1.b3 + c2.b3 + c3.b3;
    let a3 = c0.a3 + c1.a3 + c2.a3 + c3.a3;
    let b4 = c0.b4 + c1.b4 + c2.b4 + c3.b4;
    let a4 = c0.a4 + c1.a4 + c2.a4 + c3.a4;
    let a5 = c0.a5 + c1.a5 + c2.a5 + c3.a5;
    assert(a1 == count_label(shapes, 2));
    assert(b2 == count_label(shapes, 3));
    assert(a2 == twos(shapes));
    assert(b3 == count_label(shapes, 7));
    assert(a3 == threes(shapes));
    assert(b4 == fours(shapes));
    assert(a4 == count_label(shapes, 11));
    assert(a5 == count_label(shapes, 12));
    let pair3: i64 = if a3 >= 2 {
        1
    } else {
        0
    };
    let mixed: i64 = if b4 > 0 && a3 > 0 {
        1
    } else {
        0
    };
    let pair4: i64 = if b4 >= 2 {
        1
    } else {
        0
    };
    proof {
        reveal(offensive_spec);
        reveal(defensive_spec);
    }
    assert(0 <= a1 <= 4 && 0 <= b2 <= 4 && 0 <= a2 <= 4 && 0 <= b3 <= 4 && 0 <= a3 <= 4 && 0 <= b4
        <= 60 && 0 <= a4 <= 4 && 0 <= a5 <= 4);
    if attacking {
        a1 + b2 + a2 * 5 + b3 * 10 + a3 * 12 + b4 * 16 + pair3 * 100 + mixed * 3000 + pair4 * 4000
            + a4 * 6000 + a5 * 1_000_000
    } else {
        a2 + b3 + a3 * 6 + b4 * 11 + pair3 * 15 + mixed * 1500 + pair4 * 2000 + a4 * 3000 + a5
            * 50_000
    }
}

/// The fallback score of point `k`.
#[verifier::spinoff_prover]
fn point_score(caches: &EvalCaches, side: Side, k: usize) -> (t: i64)
    requires
        k < BOARD_AREA,
    ensures
        t == fallback_score(*caches, side, k as int),
{
    let player: usize = if side == 1 {
        0
    } else {
        1
    };
    let x = k % 15;
    let y = k / 15;
    let offensive = shape_value(caches.shape_cache[player][x][y], true);
    let defensive = shape_value(caches.shape_cache[1 - player][x][y], false);
    proof {
        reveal(fallback_score);
        assert(player as int == player_index(side));
        assert(x as int == k as int % 15);
        assert(y as int == k as int / 15);
    }
    5 * offensive + 5 * defensive
}

/// The classic fallback: the legal point with the best combined attacking
/// and blocking value, ties broken by a draw from `rng`.
#[verifier::spinoff_prover]
pub fn fallback_ai_move(board: &Board, caches: &EvalCaches, side: Side, rng: &mut ClassicFallbackRng) -> (r:
    Result<Move, &'static str>)
    requires
        board.wf(),
        old(rng).wf(),
    ensures
        final(rng).wf(),
        ({
            let cands = fallback_candidates(board@, *caches, side);
            &&& cands.len() == 0 ==> r.is_err() && final(rng).model() == old(rng).model()
            &&& cands.len() > 0 ==> r == Ok::<Move, &'static str>(
                cands[rng_draw(old(rng).model(), cands.len() as int)],
            ) && final(rng).model() == rng_next(old(rng).model())
            &&& has_legal_move(board@) ==> cands.len() > 0
        }),
{
    let player: usize = if side == 1 {
        0
    } else {
        1
    };
    let opponent: usize = 1 - player;
    let mut best_value: i64 = i64::MIN;
    let mut best_moves: Vec<Move> = Vec::new();
    let mut k: usize = 0;
    while k < BOARD_AREA
        invariant
            board.wf(),
            k <= BOARD_AREA,
            player as int == player_index(side),
            opponent == 1 - player,
            best_value as int == fallback_scan(board@, *caches, side, k as int).0,
            best_moves@ == fallback_scan(board@, *caches, side, k as int).1,
            best_moves@.len() <= k,
            best_moves@.len() == 0 ==> forall|j: int| 0 <= j < k ==> !board@.legal(#[trigger] (j as Move)),
            best_moves@.len() == 0 ==> best_value == i64::MIN,
        decreases BOARD_AREA - k,
    {
        let move_ = k as Move;
        if board.is_legal_move(move_) {
            let total = point_score(caches, side, k);
            proof {
                let prev = fallback_scan(board@, *caches, side, k as int);
                assert(fallback_scan(board@, *caches, side, k + 1) == if total > prev.0 {
                    (total as int, seq![move_])
                } else if total == prev.0 {
                    (prev.0, prev.1.push(move_))
                } else {
                    prev
                });
            }
            if total > best_value {
                best_value = total;
                best_moves.clear();
                best_moves.push(move_);
            } else if total == best_value {
                best_moves.push(move_);
            }
        }
        k = k + 1;
    }
    proof {
        if has_legal_move(board@) {
            let m = choose|m: Move| m < BOARD_AREA && board@.legal(m);
            if best_moves@.len() == 0 {
                assert(!board@.legal((m as int) as Move));
            }
        }
    }
    if best_moves.len() == 0 {
        return Err("fallback AIs found no legal move on non-terminal board");
    }
    let pick = rng.randrange(best_moves.len());
    match pick {
        Ok(i) => Ok(best_moves[i]),
        Err(e) => Err(e),
    }
}


// ---------------------------------------------------------------------------
// The root driver. The alpha-beta search runs outside the library: the
// driver starts a search, asks for one depth at a time, and takes back what
// that depth found.
// ---------------------------------------------------------------------------

/// What the driver keeps between depths.
#[derive(Clone, Copy, Debug, PartialEq, Eq, Structural)]
pub struct RootState {
    pub side: Side,
    pub max_depth: i32,
    pub root_width: usize,
    pub depth: i32,
    pub completed_depth: i32,
    pub best_move: Option<Move>,
    pub best_score: i32,
    pub total_nodes: usize,
}

/// What one depth of the alpha-beta search gave back: its score and move,
/// the nodes it visited, and whether it was stopped (by a node or time limit)
/// before finishing.
#[derive(Clone, Copy, Debug, PartialEq, Eq, Structural)]
pub struct AlphaBetaOutcome {
    pub score: i32,
    pub move_: Option<Move>,
    pub nodes: usize,
    pub stopped: bool,
}

/// The driver's next step: play a move, or search `depth` with `root_width`
/// over the root moves it gave out.
#[derive(Clone, Copy, Debug, PartialEq, Eq, Structural)]
pub enum RootAction {
    Play(SearchResult),
    SearchDepth { depth: i32, root_width: usize },
}

/// The root window as a set, as `root_allowed_moves` gives it.
pub open spec fn window_spec(bm: BoardModel, runtime: RuntimeOptions) -> Option<Set<Move>> {
    if runtime.static_board || bm.history.len() == 0 || !has_stone(bm.cells) {
        None
    } else {
        Some(
            Set::new(
                |m: Move| in_window(bm.cells, root_window(bm.cells, runtime.dynamic_board_margin as int), m),
            ),
        )
    }
}

/// The root moves after the opponent-VCF filter, as `apply_opponent_vcf_filter`
/// gives them.
#[verifier::opaque]
pub open spec fn filtered_spec(bm: BoardModel, side: Side, runtime: RuntimeOptions, multi: bool) -> Option<
    Set<Move>,
> {
    let allowed = window_spec(bm, runtime);
    if !runtime.compute_vcf || !vcf_outcome(
        bm,
        RuleSet::Freestyle,
        (-side) as i8,
        normalized_depth(7),
        multi,
    ).found {
        allowed
    } else {
        Some(
            Set::new(
                |m: Move|
                    m < BOARD_AREA && filter_candidates(bm, allowed, m) && survives_opponent_vcf(
                        bm,
                        side,
                        m,
                        multi,
                    ),
            ),
        )
    }
}

/// The legal moves of `s` among the first `k` points, in increasing order.
pub open spec fn legal_in(bm: BoardModel, s: Set<Move>, k: int) -> Seq<Move>
    decreases k,
{
    if k <= 0 {
        Seq::empty()
    } else if s.contains((k - 1) as Move) && bm.legal((k - 1) as Move) {
        legal_in(bm, s, k - 1).push((k - 1) as Move)
    } else {
        legal_in(bm, s, k - 1)
    }
}

/// Whether a move found by the VCT search is kept: it is legal, and it wins
/// at once, or leaves the opponent no forcing threat and, when VCF is on, no
/// VCF within 4 plies.
pub open spec fn vct_move_accepted(bm: BoardModel, side: Side, m: Move, compute_vcf: bool, multi: bool) -> bool {
    let after = trial_after(bm, side, m);
    &&& bm.legal(m)
    &&& (after.winner == side || (forcing_threats_spec(after, RuleSet::Freestyle, (-side) as i8).len() == 0 && (
    !compute_vcf || !vcf_outcome(after, RuleSet::Freestyle, (-side) as i8, normalized_depth(4), multi).found)))
}

pub open spec fn play_now(m: Move, score: i32) -> RootAction {
    RootAction::Play(SearchResult { move_: m, score, depth: 0, nodes: 0 })
}

/// The fallback pick and the generator after it.
pub open spec fn fallback_pick(bm: BoardModel, caches: EvalCaches, side: Side, rng: RngModel) -> (Move, RngModel) {
    let c = fallback_candidates(bm, caches, side);
    (c[rng_draw(rng, c.len() as int)], rng_next(rng))
}

/// Ending the search: the best move so far, or the fallback pick.
pub open spec fn finish_spec(bm: BoardModel, caches: EvalCaches, st: RootState, rng: RngModel) -> (
    RootState,
    RootAction,
    RngModel,
) {
    let (m, rng2) = match st.best_move {
        Some(m) => (m, rng),
        None => fallback_pick(bm, caches, st.side, rng),
    };
    (
        st,
        RootAction::Play(
            SearchResult { move_: m, score: st.best_score, depth: st.completed_depth, nodes: st.total_nodes },
        ),
        rng2,
    )
}

/// Starting the deepening: depth 1, or an immediate end when no depth is
/// to be searched.
pub open spec fn begin_spec(bm: BoardModel, caches: EvalCaches, st: RootState, rng: RngModel) -> (
    RootState,
    RootAction,
    RngModel,
) {
    if st.max_depth >= 1 {
        (st, RootAction::SearchDepth { depth: 1, root_width: st.root_width }, rng)
    } else {
        finish_spec(bm, caches, st, rng)
    }
}

/// The state before the first depth.
pub open spec fn initial_state(side: Side, max_depth: i32, root_width: usize) -> RootState {
    RootState {
        side,
        max_depth,
        root_width,
        depth: 1,
        completed_depth: 0,
        best_move: None,
        best_score: (-INF) as i32,
        total_nodes: 0,
    }
}

/// The move of the threat searches at the root, if any: a VCF win when VCF
/// is on; else, when VCT is on and triggered, a VCT win that passes the
/// check.
#[verifier::opaque]
pub open spec fn tactical_move(bm: BoardModel, rt: RuntimeOptions, multi: bool, strict: bool) -> Option<Move> {
    let side = bm.side_to_move;
    let vcf = vcf_outcome(bm, RuleSet::Freestyle, side, normalized_depth(8), multi);
    let vct = vct_outcome(bm, RuleSet::Freestyle, side, rt.root_vct_depth as int, strict);
    if rt.compute_vcf && vcf.found {
        Some(vcf.move_->0)
    } else if rt.compute_vct && rt.root_vct_depth > 0 && vct_trigger_spec(bm, RuleSet::Freestyle, side) && vct.found
        && vct.move_ is Some && vct_move_accepted(bm, side, vct.move_->0, rt.compute_vcf, multi) {
        Some(vct.move_->0)
    } else {
        None
    }
}

/// The driver's start: the centre on an empty board; else a VCF win; else a
/// VCT move that passes the check; else the root moves with the
/// opponent-VCF filter, answering at once when none or one of them is
/// legal; else the deepening starts. The last part gives the root moves the
/// alpha-beta search may play.
pub open spec fn root_start_spec(
    bm: BoardModel,
    settings: EngineSettings,
    max_depth: i32,
    root_width: usize,
    multi: bool,
    strict: bool,
    caches: EvalCaches,
    rng: RngModel,
) -> (RootState, RootAction, RngModel, Option<Set<Move>>) {
    let side = bm.side_to_move;
    let rt = settings.runtime;
    let st = initial_state(side, max_depth, root_width);
    if bm.history.len() == 0 {
        (st, play_now(112, 0), rng, None)
    } else if tactical_move(bm, rt, multi, strict) is Some {
        (st, play_now(tactical_move(bm, rt, multi, strict)->0, INF), rng, None)
    } else {
        let allowed = filtered_spec(bm, side, rt, multi);
        match allowed {
            Some(s) => {
                let legal = legal_in(bm, s, BOARD_AREA as int);
                if legal.len() == 0 {
                    let (m, rng2) = fallback_pick(bm, caches, side, rng);
                    (st, play_now(m, (-INF) as i32), rng2, allowed)
                } else if legal.len() == 1 {
                    (st, play_now(legal[0], 0), rng, allowed)
                } else {
                    let (st2, a, rng2) = begin_spec(bm, caches, st, rng);
                    (st2, a, rng2, allowed)
                }
            },
            None => {
                let (st2, a, rng2) = begin_spec(bm, caches, st, rng);
                (st2, a, rng2, allowed)
            },
        }
    }
}

/// One depth of the deepening done: a stopped search ends it; a move found
/// becomes the best; no move with a lost score takes the fallback pick; a
/// won or lost score, or the last depth, ends it; else the next depth.
pub open spec fn root_step_spec(
    bm: BoardModel,
    caches: EvalCaches,
    st: RootState,
    o: AlphaBetaOutcome,
    rng: RngModel,
) -> (RootState, RootAction, RngModel) {
    let st1 = RootState { total_nodes: (st.total_nodes + o.nodes) as usize, ..st };
    if o.stopped {
        finish_spec(bm, caches, st1, rng)
    } else {
        let st2 = RootState { completed_depth: st.depth, ..st1 };
        let (st3, rng3) = if o.move_ is Some {
            (RootState { best_move: o.move_, best_score: o.score, ..st2 }, rng)
        } else if o.score <= -WIN {
            let (m, r) = fallback_pick(bm, caches, st.side, rng);
            (RootState { best_move: Some(m), best_score: o.score, ..st2 }, r)
        } else {
            (st2, rng)
        };
        if o.score >= WIN || o.score <= -WIN || st.depth >= st.max_depth {
            finish_spec(bm, caches, st3, rng3)
        } else {
            (
                RootState { depth: (st.depth + 1) as i32, ..st3 },
                RootAction::SearchDepth { depth: (st.depth + 1) as i32, root_width: st.root_width },
                rng3,
            )
        }
    }
}

/// A depth interrupted by the stop never changes the answer: what a stopped
/// outcome reports as its move and score is ignored, and the move played is
/// the best move of the last completed depth, with its score.
pub proof fn lemma_stopped_depth_discarded(
    bm: BoardModel,
    caches: EvalCaches,
    st: RootState,
    o: AlphaBetaOutcome,
    o2: AlphaBetaOutcome,
    rng: RngModel,
)
    requires
        o.stopped,
        o2.stopped,
        o.nodes == o2.nodes,
    ensures
        root_step_spec(bm, caches, st, o, rng) == root_step_spec(bm, caches, st, o2, rng),
        st.best_move matches Some(m) ==> root_step_spec(bm, caches, st, o, rng).1 == RootAction::Play(
            SearchResult {
                move_: m,
                score: st.best_score,
                depth: st.completed_depth,
                nodes: (st.total_nodes + o.nodes) as usize,
            },
        ),
{
}

/// Ends the search with the best move so far, or the fallback pick.
fn finish(board: &Board, caches: &EvalCaches, st: RootState, rng: &mut ClassicFallbackRng) -> (r: (
    RootState,
    RootAction,
))
    requires
        board.wf(),
        old(rng).wf(),
        has_legal_move(board@),
    ensures
        final(rng).wf(),
        (r.0, r.1, final(rng).model()) == finish_spec(board@, *caches, st, old(rng).model()),
{
    let m = match st.best_move {
        Some(m) => m,
        None => {
            let pick = fallback_ai_move(board, caches, st.side, rng);
            match pick {
                Ok(m) => m,
                Err(_) => 0,
            }
        },
    };
    (
        st,
        RootAction::Play(
            SearchResult { move_: m, score: st.best_score, depth: st.completed_depth, nodes: st.total_nodes },
        ),
    )
}

/// The threat searches at the root: VCF first, then VCT when it is on and
/// triggered, its move kept only once `verify_root_vct_move` accepts it.
#[verifier::rlimit(40)]
fn root_tactics(board: &Board, rt: &RuntimeOptions, vcf: &mut VCFSearcher, vct: &mut VCTSearcher) -> (r: Option<
    Move,
>)
    requires
        board.wf(),
        old(vcf).wf(),
        old(vct).wf(),
    ensures
        final(vcf).wf(),
        final(vcf).multi_reply == old(vcf).multi_reply,
        final(vct).wf(),
        final(vct).strict_and_memo_key == old(vct).strict_and_memo_key,
        r == tactical_move(board@, *rt, old(vcf).multi_reply, old(vct).strict_and_memo_key),
{
    proof {
        reveal(tactical_move);
    }
    let side = board.side_to_move();
    if rt.compute_vcf {
        let found = vcf.search(board, side, 8);
        if found.found {
            return found.move_;
        }
    }
    if rt.compute_vct && rt.root_vct_depth > 0 && has_vct_trigger(board, side) {
        let found = vct.search(board, side, rt.root_vct_depth);
        if found.found {
            if let Some(m) = found.move_ {
                let (accepted, _) = verify_root_vct_move(vcf, rt.compute_vcf, board, side, m);
                if accepted {
                    return Some(m);
                }
            }
        }
    }
    None
}

/// The root moves: the root window, narrowed by the opponent-VCF filter.
fn root_moves(board: &Board, rt: &RuntimeOptions, vcf: &mut VCFSearcher) -> (r: Option<HashSet<Move>>)
    requires
        board.wf(),
        old(vcf).wf(),
        i32::MIN / 2 <= rt.dynamic_board_margin <= i32::MAX - 15,
    ensures
        final(vcf).wf(),
        final(vcf).multi_reply == old(vcf).multi_reply,
        allowed_set(r) == filtered_spec(board@, board@.side_to_move, *rt, old(vcf).multi_reply),
{
    proof {
        reveal(filtered_spec);
    }
    let side = board.side_to_move();
    let window = root_allowed_moves(board, rt);
    let r = apply_opponent_vcf_filter(vcf, rt.compute_vcf, board, side, window);
    proof {
        let w = window_spec(board@, *rt);
        assert(allowed_set(window) == w);
        if rt.compute_vcf && vcf_outcome(board@, RuleSet::Freestyle, (-side) as i8, normalized_depth(7), old(vcf).multi_reply).found {
            assert(allowed_set(r) =~~= filtered_spec(board@, side, *rt, old(vcf).multi_reply));
        }
    }
    r
}

/// Starts the root search of the side to move. The VCF search comes first;
/// the VCT search only runs when it is on and triggered, and its move is
/// played only once `verify_root_vct_move` accepts it. The third part of the
/// result is the set of root moves the alpha-beta search may play (`None`:
/// every legal move).
#[verifier::rlimit(60)]
pub fn root_start(
    board: &Board,
    settings: &EngineSettings,
    max_depth: i32,
    root_width: usize,
    caches: &EvalCaches,
    vcf: &mut VCFSearcher,
    vct: &mut VCTSearcher,
    rng: &mut ClassicFallbackRng,
) -> (r: (RootState, RootAction, Option<HashSet<Move>>))
    requires
        board.wf(),
        old(vcf).wf(),
        old(vct).wf(),
        old(rng).wf(),
        has_legal_move(board@),
        i32::MIN / 2 <= settings.runtime.dynamic_board_margin <= i32::MAX - 15,
    ensures
        final(vcf).wf(),
        final(vcf).multi_reply == old(vcf).multi_reply,
        final(vct).wf(),
        final(vct).strict_and_memo_key == old(vct).strict_and_memo_key,
        final(rng).wf(),
        ({
            let spec = root_start_spec(
                board@,
                *settings,
                max_depth,
                root_width,
                old(vcf).multi_reply,
                old(vct).strict_and_memo_key,
                *caches,
                old(rng).model(),
            );
            &&& r.0 == spec.0
            &&& r.1 == spec.1
            &&& final(rng).model() == spec.2
            &&& allowed_set(r.2) == spec.3
        }),
{
    let side = board.side_to_move();
    let rt = settings.runtime;
    let st = RootState {
        side,
        max_depth,
        root_width,
        depth: 1,
        completed_depth: 0,
        best_move: None,
        best_score: -INF,
        total_nodes: 0,
    };
    if board.move_count() == 0 {
        return (st, RootAction::Play(SearchResult { move_: 112, score: 0, depth: 0, nodes: 0 }), None);
    }
    if let Some(m) = root_tactics(board, &rt, vcf, vct) {
        return (st, RootAction::Play(SearchResult { move_: m, score: INF, depth: 0, nodes: 0 }), None);
    }
    let allowed = root_moves(board, &rt, vcf);
    match &allowed {
        Some(a) => {
            let legal = legal_root_moves(board, a);
            if legal.len() == 0 {
                let pick = fallback_ai_move(board, caches, side, rng);
                let m = match pick {
                    Ok(m) => m,
                    Err(_) => 0,
                };
                return (st, RootAction::Play(SearchResult { move_: m, score: -INF, depth: 0, nodes: 0 }), allowed);
            }
            if legal.len() == 1 {
                let m = legal[0];
                return (st, RootAction::Play(SearchResult { move_: m, score: 0, depth: 0, nodes: 0 }), allowed);
            }
        },
        None => {},
    }
    if max_depth >= 1 {
        (st, RootAction::SearchDepth { depth: 1, root_width }, allowed)
    } else {
        let (st2, a) = finish(board, caches, st, rng);
        (st2, a, allowed)
    }
}

/// The legal moves of `allowed`, in increasing order.
fn legal_root_moves(board: &Board, allowed: &HashSet<Move>) -> (v: Vec<Move>)
    requires
        board.wf(),
    ensures
        v@ == legal_in(board@, allowed@, BOARD_AREA as int),
{
    broadcast use vstd::std_specs::hash::group_hash_axioms;

    let mut v: Vec<Move> = Vec::new();
    let mut k: usize = 0;
    while k < BOARD_AREA
        invariant
            board.wf(),
            k <= BOARD_AREA,
            v@ == legal_in(board@, allowed@, k as int),
        decreases BOARD_AREA - k,
    {
        let m = k as Move;
        if allowed.contains(&m) && board.is_legal_move(m) {
            v.push(m);
        }
        k = k + 1;
    }
    v
}

/// Takes back one depth of the alpha-beta search and decides the next step.
pub fn root_step(
    board: &Board,
    caches: &EvalCaches,
    state: RootState,
    outcome: AlphaBetaOutcome,
    rng: &mut ClassicFallbackRng,
) -> (r: (RootState, RootAction))
    requires
        board.wf(),
        old(rng).wf(),
        has_legal_move(board@),
        state.total_nodes + outcome.nodes <= usize::MAX,
    ensures
        final(rng).wf(),
        (r.0, r.1, final(rng).model()) == root_step_spec(board@, *caches, state, outcome, old(rng).model()),
{
    let mut st = state;
    st.total_nodes = st.total_nodes + outcome.nodes;
    if outcome.stopped {
        return finish(board, caches, st, rng);
    }
    st.completed_depth = st.depth;
    match outcome.move_ {
        Some(m) => {
            st.best_move = Some(m);
            st.best_score = outcome.score;
        },
        None => {
            if outcome.score <= -WIN {
                let pick = fallback_ai_move(board, caches, st.side, rng);
                let m = match pick {
                    Ok(m) => m,
                    Err(_) => 0,
                };
                st.best_move = Some(m);
                st.best_score = outcome.score;
            }
        },
    }
    if outcome.score >= WIN || outcome.score <= -WIN || st.depth >= st.max_depth {
        return finish(board, caches, st, rng);
    }
    st.depth = st.depth + 1;
    (st, RootAction::SearchDepth { depth: st.depth, root_width: st.root_width })
}

} // verus!
