//! Root move checks against the opponent's threats: whether a move found by
//! the threat search survives the reply, and which root moves leave the
//! opponent without a forced win by fours.
use vstd::prelude::*;

use std::collections::HashSet;

use crate::board::{Board, BoardModel};
use crate::constants::BOARD_AREA;
use crate::rules::RuleSet;
use crate::threats::threat_board::{forcing_threat_moves, forcing_threats_spec};
use crate::threats::vcf::{normalized_depth, vcf_outcome, VCFSearcher};
use crate::types::{valid_side, Move, Side};

verus! {

broadcast use vstd::std_specs::hash::group_hash_axioms;

/// The position after `side` is made the side to move and plays `move_`.
pub open spec fn trial_after(bm: BoardModel, side: Side, move_: Move) -> BoardModel {
    let forced = BoardModel {
        side_to_move: side,
        key: if bm.side_to_move != side {
            bm.key ^ bm.table.turn_key()
        } else {
            bm.key
        },
        ..bm
    };
    forced.after_play(move_, side, RuleSet::Freestyle)
}

/// Checks a root move found by the threat search: it must be legal, and
/// unless it wins at once, the opponent must have no forcing threat and, when
/// `compute_vcf` is set, no win by continuous fours within 4 plies.
pub fn verify_root_vct_move(
    vcf: &mut VCFSearcher,
    compute_vcf: bool,
    board: &Board,
    side: Side,
    move_: Move,
) -> (r: (bool, Option<&'static str>))
    requires
        old(vcf).wf(),
        board.wf(),
        valid_side(side),
    ensures
        final(vcf).wf(),
        final(vcf).multi_reply == old(vcf).multi_reply,
        !board@.legal(move_) ==> r == (false, Some("illegal")),
        board@.legal(move_) ==> {
            let after = trial_after(board@, side, move_);
            if after.winner == side {
                r == (true, None::<&'static str>)
            } else if forcing_threats_spec(after, RuleSet::Freestyle, (-side) as i8).len() > 0 {
                r == (false, Some("opponent_forcing"))
            } else if !compute_vcf {
                r == (true, None::<&'static str>)
            } else if vcf_outcome(
                after,
                RuleSet::Freestyle,
                (-side) as i8,
                normalized_depth(4),
                old(vcf).multi_reply,
            ).found {
                r == (false, Some("opponent_vcf"))
            } else {
                r == (true, None::<&'static str>)
            }
        },
{
    if !board.is_legal_move(move_) {
        return (false, Some("illegal"));
    }
    let mut trial = board.duplicate();
    let forced = trial.force_side_to_move(side);
    if forced.is_err() {
        return (false, Some("illegal"));
    }
    let played = trial.play(move_, Some(side));
    if played.is_err() {
        return (false, Some("illegal"));
    }
    assert(trial@ == trial_after(board@, side, move_));
    if trial.winner() == side {
        return (true, None);
    }
    let opponent: Side = -side;
    let forcing = forcing_threat_moves(&trial, opponent);
    if forcing.len() > 0 {
        return (false, Some("opponent_forcing"));
    }
    if compute_vcf {
        let reply = vcf.search(&trial, opponent, 4);
        if reply.found {
            return (false, Some("opponent_vcf"));
        }
    }
    (true, None)
}

/// The restriction as a set, if any.
pub open spec fn allowed_set(allowed: Option<HashSet<Move>>) -> Option<Set<Move>> {
    match allowed {
        Some(a) => Some(a@),
        None => None,
    }
}

/// The moves considered by the filter: the legal moves among `allowed`, or
/// all legal moves when there is no restriction.
pub open spec fn filter_candidates(bm: BoardModel, allowed: Option<Set<Move>>, m: Move) -> bool {
    &&& bm.legal(m)
    &&& match allowed {
        Some(s) => s.contains(m),
        None => true,
    }
}

/// Whether `side`, to move on `bm`, plays `m` and leaves the opponent no
/// win by continuous fours.
pub open spec fn survives_opponent_vcf(bm: BoardModel, side: Side, m: Move, multi: bool) -> bool {
    &&& bm.side_to_move == side
    &&& !vcf_outcome(
        bm.after_play(m, side, RuleSet::Freestyle),
        RuleSet::Freestyle,
        (-side) as i8,
        normalized_depth(7),
        multi,
    ).found
}

/// When the opponent has a win by continuous fours, keeps only the candidate
/// moves after which it has none (each tried in increasing order); otherwise,
/// or when `compute_vcf` is off, returns `allowed` as it is.
pub fn apply_opponent_vcf_filter(
    vcf: &mut VCFSearcher,
    compute_vcf: bool,
    board: &Board,
    side: Side,
    allowed: Option<HashSet<Move>>,
) -> (r: Option<HashSet<Move>>)
    requires
        old(vcf).wf(),
        board.wf(),
        valid_side(side),
    ensures
        final(vcf).wf(),
        final(vcf).multi_reply == old(vcf).multi_reply,
        !compute_vcf ==> r == allowed,
        ({
            let threat = vcf_outcome(
                board@,
                RuleSet::Freestyle,
                (-side) as i8,
                normalized_depth(7),
                old(vcf).multi_reply,
            );
            &&& compute_vcf && !threat.found ==> r == allowed
            &&& compute_vcf && threat.found ==> (r matches Some(s) && forall|m: Move|
                #[trigger] s@.contains(m) <==> (m < BOARD_AREA && filter_candidates(
                    board@,
                    allowed_set(allowed),
                    m,
                ) && survives_opponent_vcf(board@, side, m, old(vcf).multi_reply)))
        }),
{
    if !compute_vcf {
        return allowed;
    }
    let opponent: Side = -side;
    let threat = vcf.search(board, opponent, 7);
    if !threat.found {
        return allowed;
    }
    let ghost allowed_view = allowed_set(allowed);
    let mut filtered: HashSet<Move> = HashSet::new();
    let mut index: usize = 0;
    while index < BOARD_AREA
        invariant
            vcf.wf(),
            vcf.multi_reply == old(vcf).multi_reply,
            board.wf(),
            valid_side(side),
            opponent == -side,
            index <= BOARD_AREA,
            allowed_view == allowed_set(allowed),
            forall|m: Move|
                #[trigger] filtered@.contains(m) <==> (m < index && filter_candidates(board@, allowed_view, m)
                    && survives_opponent_vcf(board@, side, m, old(vcf).multi_reply)),
        decreases BOARD_AREA - index,
    {
        let move_ = index as Move;
        let considered = match &allowed {
            Some(a) => a.contains(&move_),
            None => true,
        };
        if considered && board.is_legal_move(move_) {
            let mut trial = board.duplicate();
            let played = trial.play(move_, Some(side));
            if played.is_ok() {
                let reply = vcf.search(&trial, opponent, 7);
                if !reply.found {
                    filtered.insert(move_);
                }
            }
        }
        index = index + 1;
    }
    Some(filtered)
}

} // verus!
