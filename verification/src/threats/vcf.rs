//! VCF tactical search: victory by continuous fours.
use vstd::prelude::*;
use vstd::relations::{antisymmetric, reflexive, sorted_by, strongly_connected, total_ordering, transitive};
use vstd::seq_lib::lemma_sorted_unique;

use std::collections::HashMap;

use crate::board::{Board, BoardModel};
use crate::constants::{BLACK, BOARD_AREA};
use crate::rules::RuleSet;
use crate::threats::threat_board::{
    bfp_from, bfr_spec, blp_from, legal_replies_spec, rule_legal, threat_moves_spec, view_after_play,
    winning_a4_spec, ThreatBoardView,
};
use crate::types::{valid_side, Move, Side};

verus! {

pub const NO_MOVE: Move = 65535;

pub const VCFM: i32 = 5;

#[derive(Clone, Copy, Debug, PartialEq, Eq, Structural)]
pub struct VCFResult {
    pub move_: Option<Move>,
    pub found: bool,
    pub solved: bool,
}

#[derive(Clone, Copy, Debug, PartialEq, Eq, Structural)]
pub struct VcfMemoEntry {
    pub depth: i32,
    pub result: VCFResult,
}

/// One memo record: the side, the sorted attacker and defender moves that led
/// to the position, and the result found there.
#[derive(Clone, Debug)]
pub struct VcfMemoSlot {
    pub side: Side,
    pub attacker_moves: Vec<Move>,
    pub defender_moves: Vec<Move>,
    pub entry: VcfMemoEntry,
}

/// The memo holds its records in buckets chosen by a hash of the key; within
/// a bucket a lookup takes the latest record of the key, so a later store
/// replaces an earlier one.
#[derive(Clone, Debug)]
pub struct VCFSearcher {
    pub memo: HashMap<u64, Vec<VcfMemoSlot>>,
    pub multi_reply: bool,
}

/// A result of the attacker's search: a win names its first move, a win is
/// always solved, and a named move is a board point.
pub open spec fn attacker_result_ok(r: VCFResult) -> bool {
    &&& r.found ==> r.solved
    &&& r.found == r.move_.is_some()
    &&& r.move_ matches Some(m) ==> m < BOARD_AREA
}

/// A result of the defender's search: a win is solved, and only a win may
/// name a move.
pub open spec fn defender_result_ok(r: VCFResult) -> bool {
    &&& r.found ==> r.solved
    &&& !r.found ==> r.move_.is_none()
    &&& r.move_ matches Some(m) ==> m < BOARD_AREA
}

pub open spec fn unresolved() -> VCFResult {
    VCFResult { move_: None, found: false, solved: false }
}

/// The view `after` is the view `before`, back in the same position.
pub open spec fn view_restored(before: ThreatBoardView, after: ThreatBoardView) -> bool {
    &&& after.wf()
    &&& after.board@ == before.board@
    &&& after.rule() == before.rule()
    &&& after.saved_sides() == before.saved_sides()
}

pub open spec fn sorted_moves(s: Seq<Move>) -> bool {
    forall|i: int, j: int| 0 <= i < j < s.len() ==> s[i] <= s[j]
}

/// The search depth actually used for a requested depth.
pub open spec fn normalized_depth(depth: int) -> int {
    if depth <= 0 {
        depth
    } else if depth == 8 {
        VCFM as int
    } else if depth < VCFM - 1 {
        depth
    } else {
        VCFM - 1
    }
}

/// The point where `side` completes a five from a broken four, and whether
/// the choice is ambiguous: the rule-free scan under freestyle, the scan of
/// legal replies otherwise.
pub open spec fn four_point(bm: BoardModel, rule: RuleSet, side: Side) -> (Option<Move>, bool) {
    if rule == RuleSet::Freestyle {
        bfp_from(bm.cells, side, 0, None)
    } else {
        blp_from(bm, rule, side, 0, None)
    }
}

pub open spec fn win_at(m: Move) -> VCFResult {
    VCFResult { move_: Some(m), found: true, solved: true }
}

// ---------------------------------------------------------------------------
// The search as a function: the memo as a map of buckets of plain records,
// and the attacker's and defender's turns over it.
// ---------------------------------------------------------------------------

/// A memo record as plain values.
pub ghost struct VcfSlot {
    pub side: Side,
    pub attacker: Seq<Move>,
    pub defender: Seq<Move>,
    pub entry: VcfMemoEntry,
}

pub open spec fn slot_model(s: VcfMemoSlot) -> VcfSlot {
    VcfSlot { side: s.side, attacker: s.attacker_moves@, defender: s.defender_moves@, entry: s.entry }
}

/// The memo as plain values.
pub open spec fn memo_model(m: Map<u64, Vec<VcfMemoSlot>>) -> Map<u64, Seq<VcfSlot>> {
    Map::new(|k: u64| m.contains_key(k), |k: u64| m[k]@.map_values(|s: VcfMemoSlot| slot_model(s)))
}

pub open spec fn latest_in(b: Seq<VcfSlot>, side: Side, attacker: Seq<Move>, defender: Seq<Move>) -> Option<
    VcfMemoEntry,
>
    decreases b.len(),
{
    if b.len() == 0 {
        None
    } else if b.last().side == side && b.last().attacker == attacker && b.last().defender == defender {
        Some(b.last().entry)
    } else {
        latest_in(b.drop_last(), side, attacker, defender)
    }
}

pub open spec fn find_in(m: Map<u64, Seq<VcfSlot>>, side: Side, attacker: Seq<Move>, defender: Seq<Move>) -> Option<
    VcfMemoEntry,
> {
    let h = sequence_hash_spec(side, attacker, defender);
    if m.contains_key(h) {
        latest_in(m[h], side, attacker, defender)
    } else {
        None
    }
}

/// The memo after storing `result` at `depth` under the key.
pub open spec fn stored(
    m: Map<u64, Seq<VcfSlot>>,
    side: Side,
    attacker: Seq<Move>,
    defender: Seq<Move>,
    depth: int,
    result: VCFResult,
) -> Map<u64, Seq<VcfSlot>> {
    let h = sequence_hash_spec(side, attacker, defender);
    let before = if m.contains_key(h) {
        m[h]
    } else {
        Seq::empty()
    };
    m.insert(
        h,
        before.push(VcfSlot { side, attacker, defender, entry: VcfMemoEntry { depth: depth as i32, result } }),
    )
}

pub open spec fn solved_loss() -> VCFResult {
    VCFResult { move_: None, found: false, solved: true }
}

/// The first of `ms[i..]` after which `side` has won or holds a winning
/// open four.
pub open spec fn first_win(bm: BoardModel, rule: RuleSet, side: Side, ms: Seq<Move>, i: int) -> Option<Move>
    decreases ms.len() - i,
{
    if i < 0 || i >= ms.len() {
        None
    } else {
        let m = ms[i];
        let after = view_after_play(bm, m, side, rule);
        if after.winner == side || winning_a4_spec(after, rule, (m % 15) as int, (m / 15) as int) {
            Some(m)
        } else {
            first_win(bm, rule, side, ms, i + 1)
        }
    }
}

/// Whether playing `m` makes a four that forces a reply.
pub open spec fn is_forcing(bm: BoardModel, rule: RuleSet, side: Side, m: Move) -> bool {
    bfr_spec(view_after_play(bm, m, side, rule).cells, (m % 15) as int, (m / 15) as int).0 is Some
}

/// The attacker's turn: the result and the memo after it. A memo record of
/// the key that is a win, solved, or of the same depth answers at once;
/// otherwise the turn is searched and its result stored under the key.
pub open spec fn attacker_run(
    memo: Map<u64, Seq<VcfSlot>>,
    bm: BoardModel,
    rule: RuleSet,
    side: Side,
    depth: int,
    attacker: Seq<Move>,
    defender: Seq<Move>,
    multi: bool,
) -> (VCFResult, Map<u64, Seq<VcfSlot>>)
    decreases (if depth <= 0 {
        0int
    } else {
        5 * depth + 4
    }), 0int, 0int,
{
    if depth <= 0 {
        (unresolved(), memo)
    } else {
        let ka = sorted_key(attacker);
        let kd = sorted_key(defender);
        let hit = find_in(memo, side, ka, kd);
        if hit is Some && (hit->0.result.found || hit->0.result.solved || hit->0.depth == depth) {
            (hit->0.result, memo)
        } else {
            let (res, memo2) = attacker_search(memo, bm, rule, side, depth, attacker, defender, multi);
            (res, stored(memo2, side, ka, kd, depth, res))
        }
    }
}

/// The attacker's turn when the memo does not answer it: a five of its own
/// wins; else an opponent's four must be blocked, and only a legal,
/// unambiguous block may go on; else a threat move that wins at once wins;
/// else the forcing fours are tried in the order of the threat moves.
pub open spec fn attacker_search(
    memo: Map<u64, Seq<VcfSlot>>,
    bm: BoardModel,
    rule: RuleSet,
    side: Side,
    depth: int,
    attacker: Seq<Move>,
    defender: Seq<Move>,
    multi: bool,
) -> (VCFResult, Map<u64, Seq<VcfSlot>>)
    decreases (if depth <= 0 {
        0int
    } else {
        5 * depth + 3
    }), 0int, 0int,
{
    if depth <= 0 {
        (unresolved(), memo)
    } else {
        match four_point(bm, rule, side).0 {
            Some(m) => (win_at(m), memo),
            None => {
                let (b, ambiguous) = four_point(bm, rule, (-side) as i8);
                match b {
                    Some(block) => if !ambiguous && bm.legal(block) {
                        block_run(memo, bm, rule, side, depth, block, attacker, defender, multi)
                    } else {
                        (solved_loss(), memo)
                    },
                    None => {
                        let ordered = threat_moves_spec(bm, side, rule);
                        match first_win(bm, rule, side, ordered, 0) {
                            Some(m) => (win_at(m), memo),
                            None => forcing_run(
                                memo,
                                bm,
                                rule,
                                side,
                                depth,
                                attacker,
                                defender,
                                multi,
                                ordered.filter(|m: Move| is_forcing(bm, rule, side, m)),
                                0,
                                true,
                            ),
                        }
                    },
                }
            },
        }
    }
}

/// A VCF answer respects the opponent's four: when the searching side has no
/// five of its own and the opponent has a four, the search is found only
/// with the block of the opponent's five point as its move, and never when
/// that point cannot be blocked (two five points, or a point that is not a
/// legal move).
pub proof fn lemma_vcf_blocks_opponent_four(
    memo: Map<u64, Seq<VcfSlot>>,
    bm: BoardModel,
    rule: RuleSet,
    side: Side,
    depth: int,
    attacker: Seq<Move>,
    defender: Seq<Move>,
    multi: bool,
)
    requires
        four_point(bm, rule, side).0 is None,
        four_point(bm, rule, (-side) as i8).0 is Some,
    ensures
        ({
            let r = attacker_search(memo, bm, rule, side, depth, attacker, defender, multi).0;
            let (b, ambiguous) = four_point(bm, rule, (-side) as i8);
            &&& r.found ==> r.move_ == b
            &&& (ambiguous || !bm.legal(b->0)) ==> !r.found
        }),
        ({
            let hit = find_in(memo, side, sorted_key(attacker), sorted_key(defender));
            let r = attacker_run(memo, bm, rule, side, depth, attacker, defender, multi).0;
            !(hit is Some && (hit->0.result.found || hit->0.result.solved || hit->0.depth == depth)) ==> (r.found
                ==> r.move_ == four_point(bm, rule, (-side) as i8).0)
        }),
{
}

/// The attacker's result from the defender's answer to the four on `m`.
pub open spec fn four_outcome(d: VCFResult, m: Move) -> VCFResult {
    if d.found {
        win_at(m)
    } else if !d.solved {
        unresolved()
    } else {
        solved_loss()
    }
}

/// Blocking the opponent's four on `block`: the block wins if it makes a
/// five or a winning open four, else it is searched as a four of its own.
pub open spec fn block_run(
    memo: Map<u64, Seq<VcfSlot>>,
    bm: BoardModel,
    rule: RuleSet,
    side: Side,
    depth: int,
    block: Move,
    attacker: Seq<Move>,
    defender: Seq<Move>,
    multi: bool,
) -> (VCFResult, Map<u64, Seq<VcfSlot>>)
    decreases (if depth <= 0 {
        0int
    } else {
        5 * depth + 2
    }), 0int, 0int,
{
    if depth <= 0 {
        (unresolved(), memo)
    } else {
        let after = view_after_play(bm, block, side, rule);
        if after.winner == side || winning_a4_spec(after, rule, (block % 15) as int, (block / 15) as int) {
            (win_at(block), memo)
        } else {
            let (d, memo2) = defender_run(
                memo,
                after,
                rule,
                side,
                depth - 1,
                block,
                attacker.push(block),
                defender,
                multi,
            );
            (four_outcome(d, block), memo2)
        }
    }
}

/// Trying the forcing fours `fs[k..]` in turn: the first whose every reply
/// loses wins.
pub open spec fn forcing_run(
    memo: Map<u64, Seq<VcfSlot>>,
    bm: BoardModel,
    rule: RuleSet,
    side: Side,
    depth: int,
    attacker: Seq<Move>,
    defender: Seq<Move>,
    multi: bool,
    fs: Seq<Move>,
    k: int,
    solved: bool,
) -> (VCFResult, Map<u64, Seq<VcfSlot>>)
    decreases (if depth <= 0 {
        0int
    } else {
        5 * depth + 2
    }), 0int, fs.len() - k,
{
    if k < 0 || k >= fs.len() || depth <= 0 {
        (VCFResult { move_: None, found: false, solved }, memo)
    } else {
        let m = fs[k];
        let (d, memo2) = defender_run(
            memo,
            view_after_play(bm, m, side, rule),
            rule,
            side,
            depth - 1,
            m,
            attacker.push(m),
            defender,
            multi,
        );
        if d.found {
            (win_at(m), memo2)
        } else {
            forcing_run(memo2, bm, rule, side, depth, attacker, defender, multi, fs, k + 1, solved && d.solved)
        }
    }
}

/// The defender's turn after the four on `four`: the result and the memo
/// after it.
pub open spec fn defender_run(
    memo: Map<u64, Seq<VcfSlot>>,
    bm: BoardModel,
    rule: RuleSet,
    attacker: Side,
    depth: int,
    four: Move,
    attacker_moves: Seq<Move>,
    defender_moves: Seq<Move>,
    multi: bool,
) -> (VCFResult, Map<u64, Seq<VcfSlot>>)
    decreases (if depth < 0 {
        0int
    } else {
        5 * depth + 5
    }), 1int, 0int,
{
    if depth < 0 {
        (unresolved(), memo)
    } else {
        let (x, y) = ((four % 15) as int, (four / 15) as int);
        let defender = (-attacker) as i8;
        let replies = legal_replies_spec(bm, rule, x, y, defender);
        if replies.len() == 0 {
            (
                if rule == RuleSet::Renju && defender == BLACK && bfr_spec(bm.cells, x, y).0 is Some {
                    VCFResult { move_: None, found: true, solved: true }
                } else {
                    solved_loss()
                },
                memo,
            )
        } else if !multi {
            let reply = replies[0];
            attacker_run(
                memo,
                view_after_play(bm, reply, defender, rule),
                rule,
                attacker,
                depth,
                attacker_moves,
                defender_moves.push(reply),
                multi,
            )
        } else {
            replies_run(memo, bm, rule, attacker, depth, attacker_moves, defender_moves, multi, replies, 0, None, false)
        }
    }
}

/// Trying every reply `replies[i..]`: a reply that solves against the
/// attacker refutes the four; otherwise the four wins when every reply was
/// solved, naming the first winning continuation.
pub open spec fn replies_run(
    memo: Map<u64, Seq<VcfSlot>>,
    bm: BoardModel,
    rule: RuleSet,
    attacker: Side,
    depth: int,
    attacker_moves: Seq<Move>,
    defender_moves: Seq<Move>,
    multi: bool,
    replies: Seq<Move>,
    i: int,
    found_move: Option<Move>,
    any_unsolved: bool,
) -> (VCFResult, Map<u64, Seq<VcfSlot>>)
    decreases (if depth < 0 {
        0int
    } else {
        5 * depth + 5
    }), 0int, replies.len() - i,
{
    if i < 0 || i >= replies.len() || depth < 0 {
        (
            if any_unsolved {
                unresolved()
            } else {
                VCFResult { move_: found_move, found: true, solved: true }
            },
            memo,
        )
    } else {
        let reply = replies[i];
        let (r, memo2) = attacker_run(
            memo,
            view_after_play(bm, reply, (-attacker) as i8, rule),
            rule,
            attacker,
            depth,
            attacker_moves,
            defender_moves.push(reply),
            multi,
        );
        if r.found {
            replies_run(
                memo2,
                bm,
                rule,
                attacker,
                depth,
                attacker_moves,
                defender_moves,
                multi,
                replies,
                i + 1,
                if found_move is None {
                    r.move_
                } else {
                    found_move
                },
                any_unsolved,
            )
        } else if r.solved {
            (solved_loss(), memo2)
        } else {
            replies_run(memo2, bm, rule, attacker, depth, attacker_moves, defender_moves, multi, replies, i + 1, found_move, true)
        }
    }
}

/// Iterative deepening up to `depth`: each depth starts from an empty
/// memo and runs the shallower depths first.
pub open spec fn begin_run(
    memo: Map<u64, Seq<VcfSlot>>,
    bm: BoardModel,
    rule: RuleSet,
    side: Side,
    depth: int,
    multi: bool,
) -> (VCFResult, Map<u64, Seq<VcfSlot>>)
    decreases depth,
{
    if depth <= 0 {
        (unresolved(), memo)
    } else {
        let (shallower, m1) = begin_run(Map::empty(), bm, rule, side, depth - 1, multi);
        deepen_run(shallower, m1, bm, rule, side, depth, multi)
    }
}

/// One step of the deepening: a shallower win or solved loss stands;
/// otherwise the attacker's search at `depth` decides.
#[verifier::opaque]
pub open spec fn deepen_run(
    shallower: VCFResult,
    memo: Map<u64, Seq<VcfSlot>>,
    bm: BoardModel,
    rule: RuleSet,
    side: Side,
    depth: int,
    multi: bool,
) -> (VCFResult, Map<u64, Seq<VcfSlot>>) {
    if shallower.found {
        (shallower, memo)
    } else if shallower.solved {
        (solved_loss(), memo)
    } else {
        attacker_run(memo, bm, rule, side, depth, Seq::empty(), Seq::empty(), multi)
    }
}

/// The outcome of the VCF search of `side` on `bm` to `depth`.
pub open spec fn vcf_outcome(bm: BoardModel, rule: RuleSet, side: Side, depth: int, multi: bool) -> VCFResult {
    begin_run(Map::empty(), bm, rule, side, depth, multi).0
}

proof fn lemma_latest_model(b: Seq<VcfMemoSlot>, side: Side, attacker: Seq<Move>, defender: Seq<Move>)
    ensures
        latest_slot(b, side, attacker, defender) == latest_in(
            b.map_values(|s: VcfMemoSlot| slot_model(s)),
            side,
            attacker,
            defender,
        ),
    decreases b.len(),
{
    let mb = b.map_values(|s: VcfMemoSlot| slot_model(s));
    if b.len() > 0 {
        assert(mb.drop_last() =~= b.drop_last().map_values(|s: VcfMemoSlot| slot_model(s)));
        assert(mb.last() == slot_model(b.last()));
        lemma_latest_model(b.drop_last(), side, attacker, defender);
    }
}

proof fn lemma_find_model(m: Map<u64, Vec<VcfMemoSlot>>, side: Side, attacker: Seq<Move>, defender: Seq<Move>)
    ensures
        memo_find(m, side, attacker, defender) == find_in(memo_model(m), side, attacker, defender),
{
    let h = sequence_hash_spec(side, attacker, defender);
    if m.contains_key(h) {
        lemma_latest_model(m[h]@, side, attacker, defender);
    }
}

fn copy_moves(s: &[Move]) -> (v: Vec<Move>)
    ensures
        v@ == s@,
{
    let mut v: Vec<Move> = Vec::new();
    let mut i: usize = 0;
    while i < s.len()
        invariant
            i <= s@.len(),
            v@ == s@.subrange(0, i as int),
        decreases s@.len() - i,
    {
        v.push(s[i]);
        i = i + 1;
        assert(v@ =~= s@.subrange(0, i as int));
    }
    assert(v@ =~= s@);
    v
}

/// The moves of `s` in increasing order.
fn sorted_copy(s: &[Move]) -> (v: Vec<Move>)
    ensures
        sorted_moves(v@),
        v@.to_multiset() == s@.to_multiset(),
{
    let mut v: Vec<Move> = Vec::new();
    let mut i: usize = 0;
    assert(s@.subrange(0, 0) =~= Seq::<Move>::empty());
    while i < s.len()
        invariant
            i <= s@.len(),
            sorted_moves(v@),
            v@.to_multiset() == s@.subrange(0, i as int).to_multiset(),
        decreases s@.len() - i,
    {
        let a = s[i];
        let mut p: usize = 0;
        while p < v.len() && v[p] <= a
            invariant
                p <= v@.len(),
                forall|j: int| 0 <= j < p ==> v@[j] <= a,
            decreases v@.len() - p,
        {
            p = p + 1;
        }
        let ghost before = v@;
        v.insert(p, a);
        assert(v@ == before.insert(p as int, a));
        proof {
            vstd::seq_lib::to_multiset_insert(before, p as int, a);
            vstd::seq_lib::to_multiset_build(s@.subrange(0, i as int), a);
            assert(s@.subrange(0, i + 1) =~= s@.subrange(0, i as int).push(a));
        }
        assert(sorted_moves(v@)) by {
            assert forall|j: int, k: int| 0 <= j < k < v@.len() implies v@[j] <= v@[k] by {
                if k < p {
                } else if k == p {
                    assert(v@[j] == before[j]);
                } else if j < p {
                    assert(v@[j] == before[j]);
                    assert(v@[k] == before[k - 1]);
                    if p < before.len() {
                        assert(before[p as int] > a);
                        assert(before[j] <= before[p as int] || j == p);
                    }
                } else if j == p {
                    assert(v@[k] == before[k - 1]);
                    assert(before[p as int] > a);
                    assert(before[p as int] <= before[k - 1] || k - 1 == p);
                } else {
                    assert(v@[j] == before[j - 1]);
                    assert(v@[k] == before[k - 1]);
                }
            }
        }
        assert(s@.subrange(0, i + 1) =~= s@.subrange(0, i as int).push(a));
        i = i + 1;
    }
    assert(s@.subrange(0, s@.len() as int) =~= s@);
    v
}

fn moves_equal(a: &Vec<Move>, b: &Vec<Move>) -> (r: bool)
    ensures
        r == (a@ == b@),
{
    if a.len() != b.len() {
        return false;
    }
    let mut i: usize = 0;
    while i < a.len()
        invariant
            a@.len() == b@.len(),
            i <= a@.len(),
            forall|j: int| 0 <= j < i ==> a@[j] == b@[j],
        decreases a@.len() - i,
    {
        if a[i] != b[i] {
            return false;
        }
        i = i + 1;
    }
    assert(a@ =~= b@);
    true
}

pub const FNV_OFFSET: u64 = 0xcbf2_9ce4_8422_2325;

pub const FNV_PRIME: u64 = 0x0000_0100_0000_01b3;

/// One FNV-1a step: mix `x` into `h`, then multiply by the prime, wrapping.
pub open spec fn fnv_step(h: u64, x: u64) -> u64 {
    (((h ^ x) as nat * FNV_PRIME as nat) % 0x1_0000_0000_0000_0000nat) as u64
}

/// `h` with the moves of `s` mixed in, in order.
pub open spec fn fnv_moves(h: u64, s: Seq<Move>) -> u64
    decreases s.len(),
{
    if s.len() == 0 {
        h
    } else {
        fnv_step(fnv_moves(h, s.drop_last()), s.last() as u64)
    }
}

/// The bucket of a memo key: the side's tag, the attacker's moves, a
/// separator and the defender's moves, hashed in turn.
pub open spec fn sequence_hash_spec(side: Side, attacker: Seq<Move>, defender: Seq<Move>) -> u64 {
    let tag: u64 = if side == BLACK {
        1
    } else {
        2
    };
    fnv_moves(fnv_step(fnv_moves(fnv_step(FNV_OFFSET, tag), attacker), 0xffff), defender)
}

fn mix_moves(h0: u64, moves: &Vec<Move>) -> (h: u64)
    ensures
        h == fnv_moves(h0, moves@),
{
    let mut h = h0;
    let mut i: usize = 0;
    while i < moves.len()
        invariant
            i <= moves@.len(),
            h == fnv_moves(h0, moves@.take(i as int)),
        decreases moves@.len() - i,
    {
        assert(moves@.take(i + 1).drop_last() =~= moves@.take(i as int));
        h = (h ^ (moves[i] as u64)).wrapping_mul(FNV_PRIME);
        i = i + 1;
    }
    assert(moves@.take(moves@.len() as int) =~= moves@);
    h
}

/// A hash of a memo key, choosing its bucket.
fn sequence_hash(side: Side, attacker: &Vec<Move>, defender: &Vec<Move>) -> (h: u64)
    ensures
        h == sequence_hash_spec(side, attacker@, defender@),
{
    let tag: u64 = if side == BLACK {
        1
    } else {
        2
    };
    let mut h: u64 = (FNV_OFFSET ^ tag).wrapping_mul(FNV_PRIME);
    h = mix_moves(h, attacker);
    h = (h ^ 0xffff).wrapping_mul(FNV_PRIME);
    mix_moves(h, defender)
}

/// The order of moves in a memo key.
pub open spec fn move_leq() -> spec_fn(Move, Move) -> bool {
    |a: Move, b: Move| a <= b
}

/// The memo key of a move list: its moves in increasing order.
pub open spec fn sorted_key(s: Seq<Move>) -> Seq<Move> {
    s.sort_by(move_leq())
}

/// A sorted list with the moves of `s` is the memo key of `s`.
proof fn lemma_sorted_is_key(v: Seq<Move>, s: Seq<Move>)
    requires
        sorted_moves(v),
        v.to_multiset() == s.to_multiset(),
    ensures
        v == sorted_key(s),
{
    let leq = move_leq();
    assert(total_ordering(leq)) by {
        assert(reflexive(leq));
        assert(antisymmetric(leq));
        assert(transitive(leq));
        assert(strongly_connected(leq));
    }
    s.lemma_sort_by_ensures(leq);
    assert(sorted_by(v, leq));
    lemma_sorted_unique(v, s.sort_by(leq), leq);
}

/// The record a memo lookup finds in a bucket: the latest one of the key.
pub open spec fn latest_slot(b: Seq<VcfMemoSlot>, side: Side, attacker: Seq<Move>, defender: Seq<Move>) -> Option<
    VcfMemoEntry,
>
    decreases b.len(),
{
    if b.len() == 0 {
        None
    } else if b.last().side == side && b.last().attacker_moves@ == attacker && b.last().defender_moves@
        == defender {
        Some(b.last().entry)
    } else {
        latest_slot(b.drop_last(), side, attacker, defender)
    }
}

/// What the memo holds for a key.
pub open spec fn memo_find(
    memo: Map<u64, Vec<VcfMemoSlot>>,
    side: Side,
    attacker: Seq<Move>,
    defender: Seq<Move>,
) -> Option<VcfMemoEntry> {
    let h = sequence_hash_spec(side, attacker, defender);
    if memo.contains_key(h) {
        latest_slot(memo[h]@, side, attacker, defender)
    } else {
        None
    }
}

impl Default for VCFSearcher {
    fn default() -> (s: Self)
        ensures
            s.wf(),
            s.memo@.len() == 0,
            !s.multi_reply,
    {
        VCFSearcher { memo: HashMap::new(), multi_reply: false }
    }
}

impl VCFSearcher {
    /// Every remembered result is a well-formed attacker result.
    pub open spec fn wf(&self) -> bool {
        forall|k: u64, i: int|
            self.memo@.contains_key(k) && 0 <= i < self.memo@[k]@.len() ==> attacker_result_ok(
                #[trigger] self.memo@[k]@[i].entry.result,
            )
    }

    /// The memo key of a move sequence: both move lists sorted.
    pub fn canonical_sequence_key(attacker_moves: &[Move], defender_moves: &[Move]) -> (r: (
        Vec<Move>,
        Vec<Move>,
    ))
        ensures
            sorted_moves(r.0@),
            sorted_moves(r.1@),
            r.0@.to_multiset() == attacker_moves@.to_multiset(),
            r.1@.to_multiset() == defender_moves@.to_multiset(),
            r.0@ == sorted_key(attacker_moves@),
            r.1@ == sorted_key(defender_moves@),
    {
        let a = sorted_copy(attacker_moves);
        let d = sorted_copy(defender_moves);
        proof {
            lemma_sorted_is_key(a@, attacker_moves@);
            lemma_sorted_is_key(d@, defender_moves@);
        }
        (a, d)
    }

    fn memo_lookup(&self, side: Side, attacker: &Vec<Move>, defender: &Vec<Move>) -> (r: Option<
        VcfMemoEntry,
    >)
        requires
            self.wf(),
        ensures
            r == memo_find(self.memo@, side, attacker@, defender@),
            r matches Some(e) ==> attacker_result_ok(e.result),
    {
        broadcast use vstd::std_specs::hash::group_hash_axioms;

        let h = sequence_hash(side, attacker, defender);
        let bucket = match self.memo.get(&h) {
            Some(b) => b,
            None => return None,
        };
        let mut i: usize = bucket.len();
        assert(bucket@.take(i as int) =~= bucket@);
        while i > 0
            invariant
                self.wf(),
                self.memo@.contains_key(h),
                h == sequence_hash_spec(side, attacker@, defender@),
                *bucket == self.memo@[h],
                i <= bucket@.len(),
                latest_slot(bucket@.take(i as int), side, attacker@, defender@) == memo_find(
                    self.memo@,
                    side,
                    attacker@,
                    defender@,
                ),
            decreases i,
        {
            i = i - 1;
            let slot = &bucket[i];
            assert(bucket@.take(i + 1).last() == bucket@[i as int]);
            assert(bucket@.take(i + 1).drop_last() =~= bucket@.take(i as int));
            if slot.side == side && moves_equal(&slot.attacker_moves, attacker) && moves_equal(
                &slot.defender_moves,
                defender,
            ) {
                assert(attacker_result_ok(self.memo@[h]@[i as int].entry.result));
                return Some(slot.entry);
            }
        }
        None
    }

    fn memo_store(
        &mut self,
        side: Side,
        attacker: Vec<Move>,
        defender: Vec<Move>,
        depth: i32,
        result: VCFResult,
    ) -> (r: VCFResult)
        requires
            old(self).wf(),
            attacker_result_ok(result),
        ensures
            final(self).wf(),
            final(self).multi_reply == old(self).multi_reply,
            r == result,
            ({
                let h = sequence_hash_spec(side, attacker@, defender@);
                let before = if old(self).memo@.contains_key(h) {
                    old(self).memo@[h]@
                } else {
                    Seq::empty()
                };
                let after = final(self).memo@[h]@;
                &&& final(self).memo@.contains_key(h)
                &&& after.drop_last() == before
                &&& after.len() == before.len() + 1
                &&& after.last().side == side
                &&& after.last().attacker_moves@ == attacker@
                &&& after.last().defender_moves@ == defender@
                &&& after.last().entry == (VcfMemoEntry { depth, result })
                &&& forall|k: u64|
                    k != h ==> (#[trigger] final(self).memo@.contains_key(k) == old(self).memo@.contains_key(k)
                        && (old(self).memo@.contains_key(k) ==> final(self).memo@[k] == old(self).memo@[k]))
            }),
            memo_find(final(self).memo@, side, attacker@, defender@) == Some(VcfMemoEntry { depth, result }),
            memo_model(final(self).memo@) == stored(memo_model(old(self).memo@), side, attacker@, defender@, depth as int, result),
    {
        broadcast use vstd::std_specs::hash::group_hash_axioms;

        let h = sequence_hash(side, &attacker, &defender);
        let ghost av = attacker@;
        let ghost dv = defender@;
        let mut bucket = match self.memo.remove(&h) {
            Some(b) => b,
            None => Vec::new(),
        };
        let ghost old_bucket = bucket@;
        proof {
            assert forall|i: int| 0 <= i < old_bucket.len() implies attacker_result_ok(
                #[trigger] old_bucket[i].entry.result,
            ) by {
                assert(old(self).memo@.contains_key(h));
                assert(old_bucket[i] == old(self).memo@[h]@[i]);
            }
        }
        bucket.push(
            VcfMemoSlot {
                side,
                attacker_moves: attacker,
                defender_moves: defender,
                entry: VcfMemoEntry { depth, result },
            },
        );
        let ghost new_bucket = bucket@;
        assert(new_bucket.drop_last() =~= old_bucket);
        self.memo.insert(h, bucket);
        assert(self.memo@[h]@ == new_bucket);
        assert(latest_slot(new_bucket, side, av, dv) == Some(VcfMemoEntry { depth, result }));
        proof {
            let f = |s: VcfMemoSlot| slot_model(s);
            let mm = memo_model(self.memo@);
            let st = stored(memo_model(old(self).memo@), side, av, dv, depth as int, result);
            assert(new_bucket.map_values(f) =~= old_bucket.map_values(f).push(slot_model(new_bucket.last())));
            assert(old(self).memo@.contains_key(h) ==> old_bucket == old(self).memo@[h]@);
            assert(mm.dom() =~= st.dom());
            assert forall|k: u64| #[trigger] mm.contains_key(k) implies mm[k] == st[k] by {
                if k != h {
                    assert(self.memo@[k] == old(self).memo@[k]);
                }
            }
            assert(mm =~= st);
        }
        assert forall|k: u64, i: int|
            self.memo@.contains_key(k) && 0 <= i < self.memo@[k]@.len() implies attacker_result_ok(
            #[trigger] self.memo@[k]@[i].entry.result,
        ) by {
            if k == h {
                assert(self.memo@[k]@ == new_bucket);
                if i < old_bucket.len() {
                    assert(new_bucket[i] == old_bucket[i]);
                }
            } else {
                assert(old(self).memo@.contains_key(k));
                assert(self.memo@[k] == old(self).memo@[k]);
            }
        }
        result
    }

    pub fn search(&mut self, board: &Board, side: Side, depth: i32) -> (r: VCFResult)
        requires
            old(self).wf(),
            board.wf(),
            valid_side(side),
        ensures
            final(self).wf(),
            final(self).multi_reply == old(self).multi_reply,
            attacker_result_ok(r),
            normalized_depth(depth as int) <= 0 ==> r == unresolved(),
            r == vcf_outcome(board@, RuleSet::Freestyle, side, normalized_depth(depth as int), old(self).multi_reply),
    {
        self.search_for_rule(board, side, depth, RuleSet::Freestyle)
    }

    pub fn search_for_rule(&mut self, board: &Board, side: Side, depth: i32, rule: RuleSet) -> (r:
        VCFResult)
        requires
            old(self).wf(),
            board.wf(),
            valid_side(side),
        ensures
            final(self).wf(),
            final(self).multi_reply == old(self).multi_reply,
            attacker_result_ok(r),
            normalized_depth(depth as int) <= 0 ==> r == unresolved(),
            r == vcf_outcome(board@, rule, side, normalized_depth(depth as int), old(self).multi_reply),
    {
        let effective_depth = Self::normalize_begin_depth(depth);
        let mut view = ThreatBoardView::from_board_with_rule(board.duplicate(), rule);
        let r = self.search_begin(&mut view, side, effective_depth);
        assert(begin_run(memo_model(old(self).memo@), board@, rule, side, effective_depth as int, old(self).multi_reply).0
            == vcf_outcome(board@, rule, side, effective_depth as int, old(self).multi_reply));
        r
    }

    pub fn search_with_multi_reply(&mut self, board: &Board, side: Side, depth: i32, multi_reply: bool) -> (r:
        VCFResult)
        requires
            old(self).wf(),
            board.wf(),
            valid_side(side),
        ensures
            final(self).wf(),
            final(self).multi_reply == old(self).multi_reply,
            attacker_result_ok(r),
            normalized_depth(depth as int) <= 0 ==> r == unresolved(),
            r == vcf_outcome(board@, RuleSet::Freestyle, side, normalized_depth(depth as int), multi_reply),
    {
        self.search_with_multi_reply_for_rule(board, side, depth, multi_reply, RuleSet::Freestyle)
    }

    /// Searches with `multi_reply` in force, then restores the previous setting.
    pub fn search_with_multi_reply_for_rule(
        &mut self,
        board: &Board,
        side: Side,
        depth: i32,
        multi_reply: bool,
        rule: RuleSet,
    ) -> (r: VCFResult)
        requires
            old(self).wf(),
            board.wf(),
            valid_side(side),
        ensures
            final(self).wf(),
            final(self).multi_reply == old(self).multi_reply,
            attacker_result_ok(r),
            normalized_depth(depth as int) <= 0 ==> r == unresolved(),
            r == vcf_outcome(board@, rule, side, normalized_depth(depth as int), multi_reply),
    {
        let previous = self.multi_reply;
        self.multi_reply = multi_reply;
        let result = self.search_for_rule(board, side, depth, rule);
        self.multi_reply = previous;
        result
    }

    /// Depth 8 is cut to `VCFM`, any other positive depth to `VCFM - 1`.
    pub fn normalize_begin_depth(depth: i32) -> (d: i32)
        ensures
            d == normalized_depth(depth as int),
    {
        if depth <= 0 {
            return depth;
        }
        if depth == 8 {
            return VCFM;
        }
        if depth < VCFM - 1 {
            depth
        } else {
            VCFM - 1
        }
    }

    /// Iterative deepening: a shallower result that is found or solved stands.
    #[verifier::rlimit(40)]
    pub fn search_begin(&mut self, view: &mut ThreatBoardView, side: Side, depth: i32) -> (r:
        VCFResult)
        requires
            old(self).wf(),
            old(view).wf(),
            valid_side(side),
        ensures
            final(self).wf(),
            final(self).multi_reply == old(self).multi_reply,
            view_restored(*old(view), *final(view)),
            attacker_result_ok(r),
            depth <= 0 ==> r == unresolved(),
            depth <= 0 ==> final(self).memo@ == old(self).memo@,
            (r, memo_model(final(self).memo@)) == begin_run(
                memo_model(old(self).memo@),
                old(view).board@,
                old(view).rule(),
                side,
                depth as int,
                old(self).multi_reply,
            ),
        decreases depth,
    {
        if depth <= 0 {
            return VCFResult { move_: None, found: false, solved: false };
        }
        self.memo.clear();
        assert(memo_model(self.memo@) =~= Map::empty());
        let shallower = self.search_begin(view, side, depth - 1);
        self.deepen(view, side, depth, shallower)
    }

    /// A shallower win or solved loss stands; otherwise the attacker's search
    /// at `depth` decides.
    #[verifier::rlimit(60)]
    fn deepen(&mut self, view: &mut ThreatBoardView, side: Side, depth: i32, shallower: VCFResult) -> (r:
        VCFResult)
        requires
            old(self).wf(),
            old(view).wf(),
            valid_side(side),
            attacker_result_ok(shallower),
        ensures
            final(self).wf(),
            final(self).multi_reply == old(self).multi_reply,
            view_restored(*old(view), *final(view)),
            attacker_result_ok(r),
            (r, memo_model(final(self).memo@)) == deepen_run(
                shallower,
                memo_model(old(self).memo@),
                old(view).board@,
                old(view).rule(),
                side,
                depth as int,
                old(self).multi_reply,
            ),
    {
        if shallower.found {
            proof {
                reveal(deepen_run);
            }
            return shallower;
        }
        if shallower.solved {
            proof {
                reveal(deepen_run);
            }
            return VCFResult { move_: None, found: false, solved: true };
        }
        let no_moves: Vec<Move> = Vec::new();
        assert(no_moves@ =~= Seq::<Move>::empty());
        let r = self.search_attacker(view, side, depth, no_moves.as_slice(), no_moves.as_slice());
        proof {
            reveal(deepen_run);
        }
        r
    }

    /// The attacker's moves that win at once, in the order of its threat
    /// moves, or else every threat move that makes a forcing four.
    fn scan_threats(view: &mut ThreatBoardView, side: Side) -> (r: (Option<Move>, Vec<Move>))
        requires
            old(view).wf(),
            valid_side(side),
        ensures
            view_restored(*old(view), *final(view)),
            r.0 == first_win(old(view).board@, old(view).rule(), side, threat_moves_spec(old(view).board@, side, old(view).rule()), 0),
            r.0 matches Some(m) ==> m < BOARD_AREA,
            r.0 is None ==> r.1@ == threat_moves_spec(old(view).board@, side, old(view).rule()).filter(
                |mv: Move| is_forcing(old(view).board@, old(view).rule(), side, mv),
            ),
            forall|j: int|
                0 <= j < r.1@.len() ==> rule_legal(old(view).board@, #[trigger] r.1@[j], side, old(view).rule()),
    {
        let ghost v0 = *view;
        let ghost bm = view.board@;
        let ghost rule = view.rule();
        let ordered_moves = view.threat_moves(side);
        let mut forcing_moves: Vec<Move> = Vec::new();
        let mut i: usize = 0;
        while i < ordered_moves.len()
            invariant
                view_restored(v0, *view),
                v0 == *old(view),
                bm == v0.board@,
                rule == v0.rule(),
                valid_side(side),
                i <= ordered_moves@.len(),
                ordered_moves@ == threat_moves_spec(bm, side, rule),
                forall|j: int|
                    0 <= j < ordered_moves@.len() ==> rule_legal(bm, #[trigger] ordered_moves@[j], side, rule),
                forall|j: int|
                    0 <= j < forcing_moves@.len() ==> rule_legal(bm, #[trigger] forcing_moves@[j], side, rule),
                first_win(bm, rule, side, ordered_moves@, 0) == first_win(bm, rule, side, ordered_moves@, i as int),
                forcing_moves@ == ordered_moves@.take(i as int).filter(|mv: Move| is_forcing(bm, rule, side, mv)),
            decreases ordered_moves@.len() - i,
        {
            let m = ordered_moves[i];
            proof {
                assert(rule_legal(bm, ordered_moves@[i as int], side, rule));
                crate::threats::threat_board::lemma_rule_legal_is_legal(bm, m, side, rule);
            }
            view.play(m, side);
            let x = (m % 15) as usize;
            let y = (m / 15) as usize;
            if view.board.winner() == side || view.has_winning_a4(x, y) {
                view.undo();
                proof {
                    crate::threats::threat_board::lemma_play_undo_restores(bm, m, side, rule);
                    assert(view.saved_sides() =~= v0.saved_sides());
                }
                return (Some(m), forcing_moves);
            }
            proof {
                reveal(Seq::filter);
                assert(ordered_moves@.take(i + 1).drop_last() =~= ordered_moves@.take(i as int));
                assert(ordered_moves@.take(i + 1).last() == m);
            }
            if view.broken_four_reply(x, y).is_some() {
                forcing_moves.push(m);
            }
            view.undo();
            proof {
                crate::threats::threat_board::lemma_play_undo_restores(bm, m, side, rule);
                assert(view.saved_sides() =~= v0.saved_sides());
            }
            i = i + 1;
        }
        proof {
            assert(ordered_moves@.take(ordered_moves@.len() as int) =~= ordered_moves@);
        }
        (None, forcing_moves)
    }

    /// Tries the forcing fours in turn: the first whose every reply loses
    /// wins; otherwise the result is solved when every four was.
    #[verifier::rlimit(60)]
    fn try_forcing(
        &mut self,
        view: &mut ThreatBoardView,
        side: Side,
        depth: i32,
        attacker_moves: &[Move],
        defender_moves: &[Move],
        forcing_moves: &Vec<Move>,
    ) -> (r: VCFResult)
        requires
            old(self).wf(),
            old(view).wf(),
            valid_side(side),
            depth > 0,
            forall|j: int|
                0 <= j < forcing_moves@.len() ==> rule_legal(
                    old(view).board@,
                    #[trigger] forcing_moves@[j],
                    side,
                    old(view).rule(),
                ),
        ensures
            final(self).wf(),
            final(self).multi_reply == old(self).multi_reply,
            view_restored(*old(view), *final(view)),
            attacker_result_ok(r),
            (r, memo_model(final(self).memo@)) == forcing_run(
                memo_model(old(self).memo@),
                old(view).board@,
                old(view).rule(),
                side,
                depth as int,
                attacker_moves@,
                defender_moves@,
                old(self).multi_reply,
                forcing_moves@,
                0,
                true,
            ),
        decreases 5 * depth + 2,
    {
        let ghost v0 = *view;
        let ghost bm = view.board@;
        let ghost rule = view.rule();
        let mut solved = true;
        let mut k: usize = 0;
        while k < forcing_moves.len()
            invariant
                view_restored(v0, *view),
                v0 == *old(view),
                bm == v0.board@,
                rule == v0.rule(),
                valid_side(side),
                self.wf(),
                self.multi_reply == old(self).multi_reply,
                depth > 0,
                k <= forcing_moves@.len(),
                forall|j: int|
                    0 <= j < forcing_moves@.len() ==> rule_legal(bm, #[trigger] forcing_moves@[j], side, rule),
                forcing_run(
                    memo_model(old(self).memo@),
                    bm,
                    rule,
                    side,
                    depth as int,
                    attacker_moves@,
                    defender_moves@,
                    old(self).multi_reply,
                    forcing_moves@,
                    0,
                    true,
                ) == forcing_run(
                    memo_model(self.memo@),
                    bm,
                    rule,
                    side,
                    depth as int,
                    attacker_moves@,
                    defender_moves@,
                    old(self).multi_reply,
                    forcing_moves@,
                    k as int,
                    solved,
                ),
            decreases forcing_moves@.len() - k,
        {
            let m = forcing_moves[k];
            proof {
                assert(rule_legal(bm, forcing_moves@[k as int], side, rule));
                crate::threats::threat_board::lemma_rule_legal_is_legal(bm, m, side, rule);
            }
            view.play(m, side);
            let mut next_attacker_moves = copy_moves(attacker_moves);
            next_attacker_moves.push(m);
            let defender = self.search_defender(
                view,
                side,
                depth - 1,
                m,
                next_attacker_moves.as_slice(),
                defender_moves,
            );
            view.undo();
            proof {
                crate::threats::threat_board::lemma_play_undo_restores(bm, m, side, rule);
                assert(view.saved_sides() =~= v0.saved_sides());
            }
            if defender.found {
                return VCFResult { move_: Some(m), found: true, solved: true };
            }
            if !defender.solved {
                solved = false;
            }
            k = k + 1;
        }
        VCFResult { move_: None, found: false, solved }
    }

    /// The attacker's turn: a memo answer stands; otherwise the turn is
    /// searched and its result remembered.
    #[verifier::rlimit(40)]
    pub fn search_attacker(
        &mut self,
        view: &mut ThreatBoardView,
        side: Side,
        depth: i32,
        attacker_moves: &[Move],
        defender_moves: &[Move],
    ) -> (r: VCFResult)
        requires
            old(self).wf(),
            old(view).wf(),
            valid_side(side),
        ensures
            final(self).wf(),
            final(self).multi_reply == old(self).multi_reply,
            view_restored(*old(view), *final(view)),
            attacker_result_ok(r),
            (r, memo_model(final(self).memo@)) == attacker_run(
                memo_model(old(self).memo@),
                old(view).board@,
                old(view).rule(),
                side,
                depth as int,
                attacker_moves@,
                defender_moves@,
                old(self).multi_reply,
            ),
        decreases (if depth <= 0 {
            0int
        } else {
            5 * depth + 4
        }),
    {
        if depth <= 0 {
            return VCFResult { move_: None, found: false, solved: false };
        }
        let (key_attacker, key_defender) = Self::canonical_sequence_key(attacker_moves, defender_moves);
        proof {
            lemma_find_model(self.memo@, side, key_attacker@, key_defender@);
        }
        match self.memo_lookup(side, &key_attacker, &key_defender) {
            Some(memoized) => {
                if memoized.result.found || memoized.result.solved {
                    return memoized.result;
                }
                if memoized.depth == depth {
                    return memoized.result;
                }
            },
            None => {},
        }
        let result = self.attack_unmemoized(view, side, depth, attacker_moves, defender_moves);
        self.memo_store(side, key_attacker, key_defender, depth, result)
    }

    /// The attacker's turn that the memo did not answer: win at once, answer
    /// the opponent's four, or try each four that forces a reply.
    #[verifier::rlimit(40)]
    fn attack_unmemoized(
        &mut self,
        view: &mut ThreatBoardView,
        side: Side,
        depth: i32,
        attacker_moves: &[Move],
        defender_moves: &[Move],
    ) -> (r: VCFResult)
        requires
            old(self).wf(),
            old(view).wf(),
            valid_side(side),
            depth > 0,
        ensures
            final(self).wf(),
            final(self).multi_reply == old(self).multi_reply,
            view_restored(*old(view), *final(view)),
            attacker_result_ok(r),
            (r, memo_model(final(self).memo@)) == attacker_search(
                memo_model(old(self).memo@),
                old(view).board@,
                old(view).rule(),
                side,
                depth as int,
                attacker_moves@,
                defender_moves@,
                old(self).multi_reply,
            ),
        decreases 5 * depth + 3,
    {
        let (direct_b4, _) = view.broken_four_point_for_side(side);
        if let Some(direct_b4) = direct_b4 {
            return VCFResult { move_: Some(direct_b4), found: true, solved: true };
        }
        let opponent: Side = -side;
        let (opponent_b4, opponent_ambiguous) = view.broken_four_point_for_side(opponent);
        if let Some(opponent_b4) = opponent_b4 {
            if !opponent_ambiguous && view.board.is_legal_move(opponent_b4) {
                return self.answer_block(view, side, depth, opponent_b4, attacker_moves, defender_moves);
            }
            return VCFResult { move_: None, found: false, solved: true };
        }
        let (win, forcing_moves) = Self::scan_threats(view, side);
        if let Some(m) = win {
            return VCFResult { move_: Some(m), found: true, solved: true };
        }
        self.try_forcing(view, side, depth, attacker_moves, defender_moves, &forcing_moves)
    }

    /// Blocks the opponent's four on `block`: the block wins at once if it
    /// makes a five or a winning open four, else it is searched as a four.
    #[verifier::rlimit(40)]
    fn answer_block(
        &mut self,
        view: &mut ThreatBoardView,
        side: Side,
        depth: i32,
        block: Move,
        attacker_moves: &[Move],
        defender_moves: &[Move],
    ) -> (r: VCFResult)
        requires
            old(self).wf(),
            old(view).wf(),
            valid_side(side),
            depth > 0,
            old(view).board@.legal(block),
        ensures
            final(self).wf(),
            final(self).multi_reply == old(self).multi_reply,
            view_restored(*old(view), *final(view)),
            attacker_result_ok(r),
            (r, memo_model(final(self).memo@)) == block_run(
                memo_model(old(self).memo@),
                old(view).board@,
                old(view).rule(),
                side,
                depth as int,
                block,
                attacker_moves@,
                defender_moves@,
                old(self).multi_reply,
            ),
        decreases 5 * depth + 2,
    {
        let ghost v0 = *view;
        view.play(block, side);
        let tx = (block % 15) as usize;
        let ty = (block / 15) as usize;
        if view.board.winner() == side || view.has_winning_a4(tx, ty) {
            view.undo();
            proof {
                crate::threats::threat_board::lemma_play_undo_restores(v0.board@, block, side, v0.rule());
                assert(view.saved_sides() =~= v0.saved_sides());
            }
            return VCFResult { move_: Some(block), found: true, solved: true };
        }
        let mut next_attacker_moves = copy_moves(attacker_moves);
        next_attacker_moves.push(block);
        let defender = self.search_defender(
            view,
            side,
            depth - 1,
            block,
            next_attacker_moves.as_slice(),
            defender_moves,
        );
        view.undo();
        proof {
            crate::threats::threat_board::lemma_play_undo_restores(v0.board@, block, side, v0.rule());
            assert(view.saved_sides() =~= v0.saved_sides());
        }
        if defender.found {
            VCFResult { move_: Some(block), found: true, solved: true }
        } else if !defender.solved {
            VCFResult { move_: None, found: false, solved: false }
        } else {
            VCFResult { move_: None, found: false, solved: true }
        }
    }

    /// The defender's turn after the attacker's four on `attacker_move`: block
    /// it with the first legal reply, or with every legal reply when
    /// `multi_reply` is set.
    #[verifier::rlimit(50)]
    pub fn search_defender(
        &mut self,
        view: &mut ThreatBoardView,
        attacker: Side,
        depth: i32,
        attacker_move: Move,
        attacker_moves: &[Move],
        defender_moves: &[Move],
    ) -> (r: VCFResult)
        requires
            old(self).wf(),
            old(view).wf(),
            valid_side(attacker),
            attacker_move < BOARD_AREA,
        ensures
            final(self).wf(),
            final(self).multi_reply == old(self).multi_reply,
            view_restored(*old(view), *final(view)),
            defender_result_ok(r),
            depth < 0 ==> r == unresolved(),
            ({
                let bm = old(view).board@;
                let (x, y) = ((attacker_move % 15) as int, (attacker_move / 15) as int);
                let defender = (-attacker) as i8;
                depth >= 0 && legal_replies_spec(bm, old(view).rule(), x, y, defender).len() == 0 ==> r == (
                if old(view).rule() == RuleSet::Renju && defender == BLACK && bfr_spec(bm.cells, x, y).0 is Some {
                    VCFResult { move_: None, found: true, solved: true }
                } else {
                    VCFResult { move_: None, found: false, solved: true }
                })
            }),
            (r, memo_model(final(self).memo@)) == defender_run(
                memo_model(old(self).memo@),
                old(view).board@,
                old(view).rule(),
                attacker,
                depth as int,
                attacker_move,
                attacker_moves@,
                defender_moves@,
                old(self).multi_reply,
            ),
        decreases (if depth < 0 {
            0int
        } else {
            5 * depth + 5
        }),
    {
        if depth < 0 {
            return VCFResult { move_: None, found: false, solved: false };
        }
        let x = (attacker_move % 15) as usize;
        let y = (attacker_move / 15) as usize;
        let defender: Side = -attacker;
        let ghost v0 = *view;
        let ghost bm = view.board@;
        let ghost rule = view.rule();
        let replies = view.broken_four_legal_replies_for_side(x, y, defender);
        if replies.is_empty() {
            if matches!(view.rule_set(), RuleSet::Renju) && defender == BLACK && view.broken_four_reply(
                x,
                y,
            ).is_some() {
                return VCFResult { move_: None, found: true, solved: true };
            }
            return VCFResult { move_: None, found: false, solved: true };
        }
        let reply_slice = replies.as_slice();
        if !self.multi_reply {
            let reply = reply_slice[0];
            proof {
                assert(rule_legal(bm, replies@[0], defender, rule));
                crate::threats::threat_board::lemma_rule_legal_is_legal(bm, reply, defender, rule);
            }
            view.play(reply, defender);
            let mut next_defender_moves = copy_moves(defender_moves);
            next_defender_moves.push(reply);
            let result = self.search_attacker(
                view,
                attacker,
                depth,
                attacker_moves,
                next_defender_moves.as_slice(),
            );
            view.undo();
            proof {
                crate::threats::threat_board::lemma_play_undo_restores(bm, reply, defender, rule);
                assert(view.saved_sides() =~= v0.saved_sides());
            }
            return result;
        }
        let mut found_move: Option<Move> = None;
        let mut any_unsolved = false;
        let mut i: usize = 0;
        while i < reply_slice.len()
            invariant
                view_restored(v0, *view),
                v0 == *old(view),
                bm == v0.board@,
                rule == v0.rule(),
                valid_side(attacker),
                defender == -attacker,
                self.wf(),
                self.multi_reply == old(self).multi_reply,
                depth >= 0,
                i <= reply_slice@.len(),
                reply_slice@ == replies@,
                legal_replies_spec(
                    old(view).board@,
                    old(view).rule(),
                    (attacker_move % 15) as int,
                    (attacker_move / 15) as int,
                    (-attacker) as i8,
                ).len() > 0,
                forall|j: int|
                    0 <= j < replies@.len() ==> #[trigger] replies@[j] < BOARD_AREA && rule_legal(
                        bm,
                        replies@[j],
                        defender,
                        rule,
                    ),
                found_move matches Some(m) ==> m < BOARD_AREA,
                replies@ == legal_replies_spec(
                    bm,
                    rule,
                    (attacker_move % 15) as int,
                    (attacker_move / 15) as int,
                    defender,
                ),
                defender == (-attacker) as i8,
                self.multi_reply,
                replies_run(
                    memo_model(old(self).memo@),
                    bm,
                    rule,
                    attacker,
                    depth as int,
                    attacker_moves@,
                    defender_moves@,
                    true,
                    replies@,
                    0,
                    None,
                    false,
                ) == replies_run(
                    memo_model(self.memo@),
                    bm,
                    rule,
                    attacker,
                    depth as int,
                    attacker_moves@,
                    defender_moves@,
                    true,
                    replies@,
                    i as int,
                    found_move,
                    any_unsolved,
                ),
                i > 0 && !any_unsolved ==> found_move.is_some(),
            decreases reply_slice@.len() - i,
        {
            let reply = reply_slice[i];
            proof {
                assert(rule_legal(bm, replies@[i as int], defender, rule));
                crate::threats::threat_board::lemma_rule_legal_is_legal(bm, reply, defender, rule);
            }
            view.play(reply, defender);
            let mut next_defender_moves = copy_moves(defender_moves);
            next_defender_moves.push(reply);
            let result = self.search_attacker(
                view,
                attacker,
                depth,
                attacker_moves,
                next_defender_moves.as_slice(),
            );
            view.undo();
            proof {
                crate::threats::threat_board::lemma_play_undo_restores(bm, reply, defender, rule);
                assert(view.saved_sides() =~= v0.saved_sides());
            }
            if result.found {
                if found_move.is_none() {
                    found_move = result.move_;
                }
            } else if result.solved {
                return VCFResult { move_: None, found: false, solved: true };
            } else {
                any_unsolved = true;
            }
            i = i + 1;
        }
        if any_unsolved {
            VCFResult { move_: None, found: false, solved: false }
        } else {
            VCFResult { move_: found_move, found: true, solved: true }
        }
    }
}

} // verus!
