//! Victory by Continuous Threats (VCT) search.
use vstd::prelude::*;

use std::collections::HashMap;

use crate::board::Board;
use crate::constants::{BLACK, BOARD_AREA, EMPTY};
use crate::rules::RuleSet;
use crate::board::BoardModel;
use crate::threats::threat_board::{
    a3r_count_spec, attack_playable, attack_view, attack_views, b4_count_spec, bfp_from, blp_from,
    collected_attacks_spec, filter_moves,
    lemma_play_undo_restores, lemma_rule_legal_is_legal, rule_legal, threat_moves_spec,
    view_after_play, winning_a4_spec, ThreatBoardView,
};
use crate::threats::types::{level_rank, AttackMove, ThreatLevel};
use crate::threats::vcf::{fnv_step, view_restored, FNV_OFFSET, FNV_PRIME};
use crate::types::{valid_side, Move, Side};

verus! {

#[verifier::external_type_specification]
#[verifier::external_body]
pub struct ExInstant(std::time::Instant);

/// `std::time::Instant::now`: the current instant; nothing is claimed of it.
pub assume_specification[std::time::Instant::now]() -> std::time::Instant;

/// `std::time::Instant::elapsed`: the time since the instant; nothing is claimed of it.
pub assume_specification[std::time::Instant::elapsed](instant: &std::time::Instant) -> std::time::Duration;

/// `std::time::Duration::as_micros`: the whole microseconds of a duration;
/// nothing is claimed of the value.
pub assume_specification[std::time::Duration::as_micros](duration: &std::time::Duration) -> u128;

pub const OR_NODE: i32 = 0;

pub const AND_NODE: i32 = 1;

pub const MAX_AND_MEMO_COLLISION_SAMPLES: usize = 8;

#[derive(Clone, Copy, Debug, PartialEq, Eq, Structural)]
pub struct VCTResult {
    pub move_: Option<Move>,
    pub found: bool,
    pub solved: bool,
}

#[derive(Clone, Copy, Debug, PartialEq, Eq, Structural)]
pub struct VctMemoEntry {
    pub depth: i32,
    pub result: VCTResult,
}

#[derive(Clone, Debug, PartialEq, Eq)]
pub struct VCTAndMemoCollisionSample {
    pub observed_depth: i32,
    pub current_depth: i32,
    pub board_key: u64,
    pub observed_signature: u64,
    pub current_signature: u64,
    pub attack_move: Move,
    pub attack_level: u8,
    pub defenses: Vec<Move>,
}

#[derive(Clone, Copy, Debug, Default, PartialEq, Eq, Structural)]
pub struct VCTDepthStats {
    pub depth: i32,
    pub elapsed_us: u128,
    pub found: bool,
    pub solved: bool,
    pub or_nodes: usize,
    pub and_nodes: usize,
    pub memo_exact_hits: usize,
    pub memo_shallow_found_hits: usize,
    pub memo_shallow_solved_hits: usize,
    pub attacks_generated: usize,
    pub defenses_generated: usize,
    pub max_attack_count: usize,
    pub max_defense_count: usize,
    pub and_memo_context_observations: usize,
    pub and_memo_context_collisions: usize,
    pub and_memo_context_collision_keys: usize,
}

#[derive(Clone, Copy, Debug, PartialEq, Eq, Structural)]
struct VCTStatsSnapshot {
    or_nodes: usize,
    and_nodes: usize,
    memo_exact_hits: usize,
    memo_shallow_found_hits: usize,
    memo_shallow_solved_hits: usize,
    attacks_generated: usize,
    defenses_generated: usize,
    and_memo_context_observations: usize,
    and_memo_context_collisions: usize,
    and_memo_context_collision_keys: usize,
}

#[derive(Clone, Debug, PartialEq, Eq)]
pub struct VCTStats {
    pub depth_limit: i32,
    pub depth_completed: i32,
    pub elapsed_us: u128,
    pub or_nodes: usize,
    pub and_nodes: usize,
    pub memo_exact_hits: usize,
    pub memo_shallow_found_hits: usize,
    pub memo_shallow_solved_hits: usize,
    pub attacks_generated: usize,
    pub defenses_generated: usize,
    pub max_attack_count: usize,
    pub max_defense_count: usize,
    pub and_memo_context_observations: usize,
    pub and_memo_context_collisions: usize,
    pub and_memo_context_collision_keys: usize,
    pub and_memo_context_collision_samples: Vec<VCTAndMemoCollisionSample>,
    pub depth_stats: Vec<VCTDepthStats>,
    pub current_depth_max_attack_count: usize,
    pub current_depth_max_defense_count: usize,
}

#[derive(Clone, Copy, Debug, PartialEq, Eq, Structural)]
pub struct DefenseStageResult {
    pub refutation: Option<VCTResult>,
    pub solved: bool,
    pub searched: bool,
}

/// One memo record, keyed by node kind, attacker, depth, position key and
/// attack context.
#[derive(Clone, Copy, Debug, PartialEq, Eq, Structural)]
pub struct VctMemoSlot {
    pub node: i32,
    pub attacker: Side,
    pub depth: i32,
    pub key: u64,
    pub context: u64,
    pub entry: VctMemoEntry,
}

/// The attack signature first seen for an AND node key.
#[derive(Clone, Copy, Debug, PartialEq, Eq, Structural)]
pub struct AndContextSlot {
    pub attacker: Side,
    pub depth: i32,
    pub board_key: u64,
    pub signature: u64,
}

/// The search state. The memo holds its records in buckets chosen by a hash
/// of the key; within a bucket a lookup takes the latest record of the key,
/// so a later store replaces an earlier one.
#[derive(Clone, Debug)]
pub struct VCTSearcher {
    pub memo: HashMap<u64, Vec<VctMemoSlot>>,
    pub stats: VCTStats,
    pub memo_diagnostics_enabled: bool,
    pub strict_and_memo_key: bool,
    pub and_memo_context_signatures: Vec<AndContextSlot>,
    pub and_memo_context_collision_keys: Vec<(Side, i32, u64)>,
}

/// A search result: a named move is a board point that wins, solved.
pub open spec fn vct_result_ok(r: VCTResult) -> bool {
    r.move_ matches Some(m) ==> r.found && r.solved && m < BOARD_AREA
}

/// A result of the kind of node `node`: an OR node's win is always solved.
pub open spec fn node_result_ok(node: i32, r: VCTResult) -> bool {
    &&& vct_result_ok(r)
    &&& node == OR_NODE ==> (r.found ==> r.solved)
}

pub open spec fn vct_unresolved() -> VCTResult {
    VCTResult { move_: None, found: false, solved: false }
}

pub open spec fn sat_add(a: usize, b: usize) -> usize {
    if a + b > usize::MAX {
        usize::MAX
    } else {
        (a + b) as usize
    }
}

pub open spec fn sat_sub(a: usize, b: usize) -> usize {
    if a < b {
        0
    } else {
        (a - b) as usize
    }
}

/// One step of the attack signature hash.
pub open spec fn mix_spec(hash: u64, value: u64) -> u64 {
    (hash ^ value).wrapping_mul(0x0000_0100_0000_01b3u64)
}

pub open spec fn signature_fold(hash: u64, values: Seq<Move>, k: int) -> u64
    decreases k,
{
    if k <= 0 {
        hash
    } else {
        mix_spec(signature_fold(hash, values, k - 1), values[k - 1] as u64)
    }
}

/// The hash of an attack's move, level, number of defences and defences.
pub open spec fn view_signature(a: (Move, ThreatLevel, Seq<Move>)) -> u64 {
    let h0 = 0xcbf2_9ce4_8422_2325u64;
    let h1 = mix_spec(h0, a.0 as u64);
    let h2 = mix_spec(h1, level_rank(a.1) as u64);
    let h3 = mix_spec(h2, a.2.len() as u64);
    signature_fold(h3, a.2, a.2.len() as int)
}

pub open spec fn attack_signature_spec(attack: AttackMove) -> u64 {
    view_signature(attack_view(attack))
}

fn mix_signature(hash: &mut u64, value: u64)
    ensures
        *final(hash) == mix_spec(*old(hash), value),
{
    *hash = *hash ^ value;
    *hash = hash.wrapping_mul(0x0000_0100_0000_01b3u64);
}

pub fn attack_signature(attack: &AttackMove) -> (h: u64)
    ensures
        h == attack_signature_spec(*attack),
{
    let mut hash: u64 = 0xcbf2_9ce4_8422_2325u64;
    mix_signature(&mut hash, attack.move_ as u64);
    mix_signature(&mut hash, attack.level.rank() as u64);
    mix_signature(&mut hash, attack.defenses.len() as u64);
    let h3 = hash;
    let mut i: usize = 0;
    while i < attack.defenses.len()
        invariant
            i <= attack.defenses@.len(),
            hash == signature_fold(h3, attack.defenses@, i as int),
        decreases attack.defenses@.len() - i,
    {
        mix_signature(&mut hash, attack.defenses[i] as u64);
        i = i + 1;
    }
    hash
}

fn max_usize(a: usize, b: usize) -> (m: usize)
    ensures
        m == if a >= b {
            a
        } else {
            b
        },
{
    if a >= b {
        a
    } else {
        b
    }
}

impl Default for VCTStats {
    fn default() -> (s: Self)
        ensures
            s.depth_limit == 0,
            s.depth_completed == 0,
            s.elapsed_us == 0,
            s.or_nodes == 0,
            s.and_nodes == 0,
            s.memo_exact_hits == 0,
            s.memo_shallow_found_hits == 0,
            s.memo_shallow_solved_hits == 0,
            s.attacks_generated == 0,
            s.defenses_generated == 0,
            s.max_attack_count == 0,
            s.max_defense_count == 0,
            s.and_memo_context_observations == 0,
            s.and_memo_context_collisions == 0,
            s.and_memo_context_collision_keys == 0,
            s.and_memo_context_collision_samples@.len() == 0,
            s.depth_stats@.len() == 0,
    {
        VCTStats {
            depth_limit: 0,
            depth_completed: 0,
            elapsed_us: 0,
            or_nodes: 0,
            and_nodes: 0,
            memo_exact_hits: 0,
            memo_shallow_found_hits: 0,
            memo_shallow_solved_hits: 0,
            attacks_generated: 0,
            defenses_generated: 0,
            max_attack_count: 0,
            max_defense_count: 0,
            and_memo_context_observations: 0,
            and_memo_context_collisions: 0,
            and_memo_context_collision_keys: 0,
            and_memo_context_collision_samples: Vec::new(),
            depth_stats: Vec::new(),
            current_depth_max_attack_count: 0,
            current_depth_max_defense_count: 0,
        }
    }
}

impl VCTStats {
    fn snapshot(&self) -> (s: VCTStatsSnapshot)
        ensures
            s.or_nodes == self.or_nodes,
            s.and_nodes == self.and_nodes,
            s.memo_exact_hits == self.memo_exact_hits,
            s.memo_shallow_found_hits == self.memo_shallow_found_hits,
            s.memo_shallow_solved_hits == self.memo_shallow_solved_hits,
            s.attacks_generated == self.attacks_generated,
            s.defenses_generated == self.defenses_generated,
            s.and_memo_context_observations == self.and_memo_context_observations,
            s.and_memo_context_collisions == self.and_memo_context_collisions,
            s.and_memo_context_collision_keys == self.and_memo_context_collision_keys,
    {
        VCTStatsSnapshot {
            or_nodes: self.or_nodes,
            and_nodes: self.and_nodes,
            memo_exact_hits: self.memo_exact_hits,
            memo_shallow_found_hits: self.memo_shallow_found_hits,
            memo_shallow_solved_hits: self.memo_shallow_solved_hits,
            attacks_generated: self.attacks_generated,
            defenses_generated: self.defenses_generated,
            and_memo_context_observations: self.and_memo_context_observations,
            and_memo_context_collisions: self.and_memo_context_collisions,
            and_memo_context_collision_keys: self.and_memo_context_collision_keys,
        }
    }

    /// The counts of one iteration: each counter's growth since `before`.
    fn depth_delta(&self, before: VCTStatsSnapshot, depth: i32, elapsed_us: u128, result: VCTResult) -> (d:
        VCTDepthStats)
        ensures
            d.depth == depth,
            d.elapsed_us == elapsed_us,
            d.found == result.found,
            d.solved == result.solved,
            d.or_nodes == sat_sub(self.or_nodes, before.or_nodes),
            d.and_nodes == sat_sub(self.and_nodes, before.and_nodes),
            d.memo_exact_hits == sat_sub(self.memo_exact_hits, before.memo_exact_hits),
            d.memo_shallow_found_hits == sat_sub(
                self.memo_shallow_found_hits,
                before.memo_shallow_found_hits,
            ),
            d.memo_shallow_solved_hits == sat_sub(
                self.memo_shallow_solved_hits,
                before.memo_shallow_solved_hits,
            ),
            d.attacks_generated == sat_sub(self.attacks_generated, before.attacks_generated),
            d.defenses_generated == sat_sub(self.defenses_generated, before.defenses_generated),
            d.max_attack_count == self.current_depth_max_attack_count,
            d.max_defense_count == self.current_depth_max_defense_count,
            d.and_memo_context_observations == sat_sub(
                self.and_memo_context_observations,
                before.and_memo_context_observations,
            ),
            d.and_memo_context_collisions == sat_sub(
                self.and_memo_context_collisions,
                before.and_memo_context_collisions,
            ),
            d.and_memo_context_collision_keys == sat_sub(
                self.and_memo_context_collision_keys,
                before.and_memo_context_collision_keys,
            ),
    {
        VCTDepthStats {
            depth,
            elapsed_us,
            found: result.found,
            solved: result.solved,
            or_nodes: self.or_nodes.saturating_sub(before.or_nodes),
            and_nodes: self.and_nodes.saturating_sub(before.and_nodes),
            memo_exact_hits: self.memo_exact_hits.saturating_sub(before.memo_exact_hits),
            memo_shallow_found_hits: self.memo_shallow_found_hits.saturating_sub(
                before.memo_shallow_found_hits,
            ),
            memo_shallow_solved_hits: self.memo_shallow_solved_hits.saturating_sub(
                before.memo_shallow_solved_hits,
            ),
            attacks_generated: self.attacks_generated.saturating_sub(before.attacks_generated),
            defenses_generated: self.defenses_generated.saturating_sub(before.defenses_generated),
            max_attack_count: self.current_depth_max_attack_count,
            max_defense_count: self.current_depth_max_defense_count,
            and_memo_context_observations: self.and_memo_context_observations.saturating_sub(
                before.and_memo_context_observations,
            ),
            and_memo_context_collisions: self.and_memo_context_collisions.saturating_sub(
                before.and_memo_context_collisions,
            ),
            and_memo_context_collision_keys: self.and_memo_context_collision_keys.saturating_sub(
                before.and_memo_context_collision_keys,
            ),
        }
    }
}

/// The bucket of a memo key: node kind, side, depth, position key and
/// context, hashed in turn.
pub open spec fn memo_hash_spec(node: i32, attacker: Side, depth: i32, key: u64, context: u64) -> u64 {
    let node_tag: u64 = if node == OR_NODE {
        1
    } else {
        2
    };
    let side_tag: u64 = if attacker == BLACK {
        1
    } else {
        2
    };
    let depth_tag: u64 = if depth >= 0 {
        depth as u64
    } else {
        0xffff
    };
    fnv_step(fnv_step(fnv_step(fnv_step(fnv_step(FNV_OFFSET, node_tag), side_tag), depth_tag), key), context)
}

/// A hash of a memo key, choosing its bucket.
fn memo_hash(node: i32, attacker: Side, depth: i32, key: u64, context: u64) -> (h: u64)
    ensures
        h == memo_hash_spec(node, attacker, depth, key, context),
{
    let prime: u64 = FNV_PRIME;
    let mut h: u64 = FNV_OFFSET;
    let node_tag: u64 = if node == OR_NODE {
        1
    } else {
        2
    };
    let side_tag: u64 = if attacker == BLACK {
        1
    } else {
        2
    };
    let depth_tag: u64 = if depth >= 0 {
        depth as u64
    } else {
        0xffff
    };
    h = (h ^ node_tag).wrapping_mul(prime);
    h = (h ^ side_tag).wrapping_mul(prime);
    h = (h ^ depth_tag).wrapping_mul(prime);
    h = (h ^ key).wrapping_mul(prime);
    h = (h ^ context).wrapping_mul(prime);
    h
}

pub open spec fn slot_is(s: VctMemoSlot, node: i32, attacker: Side, depth: i32, key: u64, context: u64) -> bool {
    s.node == node && s.attacker == attacker && s.depth == depth && s.key == key && s.context == context
}

/// The result of the latest record of the key in a bucket.
pub open spec fn latest_result(
    b: Seq<VctMemoSlot>,
    node: i32,
    attacker: Side,
    depth: i32,
    key: u64,
    context: u64,
) -> Option<VCTResult>
    decreases b.len(),
{
    if b.len() == 0 {
        None
    } else if slot_is(b.last(), node, attacker, depth, key, context) {
        Some(b.last().entry.result)
    } else {
        latest_result(b.drop_last(), node, attacker, depth, key, context)
    }
}

/// What the memo holds for a key.
pub open spec fn vct_memo_find(
    memo: Map<u64, Vec<VctMemoSlot>>,
    node: i32,
    attacker: Side,
    depth: i32,
    key: u64,
    context: u64,
) -> Option<VCTResult> {
    let h = memo_hash_spec(node, attacker, depth, key, context);
    if memo.contains_key(h) {
        latest_result(memo[h]@, node, attacker, depth, key, context)
    } else {
        None
    }
}

/// The first shallower depth `d..depth` whose record is a win or solved.
pub open spec fn shallow_answer(
    memo: Map<u64, Vec<VctMemoSlot>>,
    node: i32,
    attacker: Side,
    d: i32,
    depth: i32,
    key: u64,
    context: u64,
) -> Option<VCTResult>
    decreases depth - d,
{
    if d >= depth {
        None
    } else {
        match vct_memo_find(memo, node, attacker, d, key, context) {
            Some(res) => if res.found || res.solved {
                Some(res)
            } else {
                shallow_answer(memo, node, attacker, (d + 1) as i32, depth, key, context)
            },
            None => shallow_answer(memo, node, attacker, (d + 1) as i32, depth, key, context),
        }
    }
}

/// A memo answer: the record of the same depth, or else the first
/// shallower one that is a win or solved.
pub open spec fn memo_answer_at(
    memo: Map<u64, Vec<VctMemoSlot>>,
    node: i32,
    attacker: Side,
    depth: i32,
    key: u64,
    context: u64,
) -> Option<VCTResult> {
    match vct_memo_find(memo, node, attacker, depth, key, context) {
        Some(res) => Some(res),
        None => shallow_answer(memo, node, attacker, 1, depth, key, context),
    }
}

impl Default for VCTSearcher {
    fn default() -> (s: Self)
        ensures
            s.wf(),
            s.memo@.len() == 0,
            !s.memo_diagnostics_enabled,
            !s.strict_and_memo_key,
            s.stats.and_memo_context_observations == 0,
            s.stats.and_memo_context_collisions == 0,
            s.stats.and_memo_context_collision_keys == 0,
            s.stats.and_memo_context_collision_samples@.len() == 0,
    {
        VCTSearcher {
            memo: HashMap::new(),
            stats: VCTStats::default(),
            memo_diagnostics_enabled: false,
            strict_and_memo_key: false,
            and_memo_context_signatures: Vec::new(),
            and_memo_context_collision_keys: Vec::new(),
        }
    }
}

/// The searcher settings that a search leaves as they were.
pub open spec fn same_settings(a: VCTSearcher, b: VCTSearcher) -> bool {
    &&& b.memo_diagnostics_enabled == a.memo_diagnostics_enabled
    &&& b.strict_and_memo_key == a.strict_and_memo_key
}

impl VCTSearcher {
    /// Every remembered result is a well-formed search result.
    pub open spec fn wf(&self) -> bool {
        forall|k: u64, i: int|
            self.memo@.contains_key(k) && 0 <= i < self.memo@[k]@.len() ==> node_result_ok(
                #[trigger] self.memo@[k]@[i].node,
                self.memo@[k]@[i].entry.result,
            )
    }

    fn memo_get(&self, node: i32, attacker: Side, depth: i32, key: u64, context: u64) -> (r: Option<
        VCTResult,
    >)
        requires
            self.wf(),
        ensures
            r == vct_memo_find(self.memo@, node, attacker, depth, key, context),
            r matches Some(res) ==> node_result_ok(node, res),
    {
        broadcast use vstd::std_specs::hash::group_hash_axioms;

        let h = memo_hash(node, attacker, depth, key, context);
        let bucket = match self.memo.get(&h) {
            Some(b) => b,
            None => return None,
        };
        let mut i: usize = bucket.len();
        assert(bucket@.take(i as int) =~= bucket@);
        while i > 0
            invariant
                self.wf(),
                self.memo@.contains_key(h),
                h == memo_hash_spec(node, attacker, depth, key, context),
                *bucket == self.memo@[h],
                i <= bucket@.len(),
                latest_result(bucket@.take(i as int), node, attacker, depth, key, context) == vct_memo_find(
                    self.memo@,
                    node,
                    attacker,
                    depth,
                    key,
                    context,
                ),
            decreases i,
        {
            i = i - 1;
            let slot = bucket[i];
            assert(bucket@.take(i + 1).last() == bucket@[i as int]);
            assert(bucket@.take(i + 1).drop_last() =~= bucket@.take(i as int));
            if slot.node == node && slot.attacker == attacker && slot.depth == depth && slot.key == key
                && slot.context == context {
                assert(node_result_ok(self.memo@[h]@[i as int].node, self.memo@[h]@[i as int].entry.result));
                return Some(slot.entry.result);
            }
        }
        None
    }

    /// An exact hit at `depth`, or else a shallower result that is found or solved.
    fn memo_lookup(&mut self, node: i32, attacker: Side, depth: i32, key: u64, context: u64) -> (r:
        Option<VCTResult>)
        requires
            old(self).wf(),
        ensures
            final(self).wf(),
            same_settings(*old(self), *final(self)),
            final(self).stats.depth_limit == old(self).stats.depth_limit,
            final(self).memo == old(self).memo,
            r == memo_answer_at(old(self).memo@, node, attacker, depth, key, context),
            r matches Some(res) ==> node_result_ok(node, res),
    {
        if let Some(result) = self.memo_get(node, attacker, depth, key, context) {
            self.stats.memo_exact_hits = self.stats.memo_exact_hits.saturating_add(1);
            return Some(result);
        }
        let mut d: i32 = 1;
        while d < depth
            invariant
                self.wf(),
                same_settings(*old(self), *self),
                self.stats.depth_limit == old(self).stats.depth_limit,
                self.memo == old(self).memo,
                1 <= d,
                vct_memo_find(old(self).memo@, node, attacker, depth, key, context).is_none(),
                shallow_answer(self.memo@, node, attacker, d, depth, key, context) == shallow_answer(
                    self.memo@,
                    node,
                    attacker,
                    1,
                    depth,
                    key,
                    context,
                ),
            decreases depth - d,
        {
            if let Some(result) = self.memo_get(node, attacker, d, key, context) {
                if result.found {
                    self.stats.memo_shallow_found_hits = self.stats.memo_shallow_found_hits.saturating_add(
                        1,
                    );
                    return Some(result);
                }
                if result.solved {
                    self.stats.memo_shallow_solved_hits = self.stats.memo_shallow_solved_hits.saturating_add(
                        1,
                    );
                    return Some(result);
                }
            }
            d = d + 1;
        }
        None
    }

    fn store(&mut self, node: i32, attacker: Side, depth: i32, key: u64, context: u64, result: VCTResult) -> (r:
        VCTResult)
        requires
            old(self).wf(),
            node_result_ok(node, result),
        ensures
            final(self).wf(),
            same_settings(*old(self), *final(self)),
            final(self).stats.depth_limit == old(self).stats.depth_limit,
            r == result,
            ({
                let h = memo_hash_spec(node, attacker, depth, key, context);
                let before = if old(self).memo@.contains_key(h) {
                    old(self).memo@[h]@
                } else {
                    Seq::empty()
                };
                &&& final(self).memo@.contains_key(h)
                &&& final(self).memo@[h]@ == before.push(
                    VctMemoSlot { node, attacker, depth, key, context, entry: VctMemoEntry { depth, result } },
                )
                &&& forall|k: u64|
                    k != h ==> (#[trigger] final(self).memo@.contains_key(k) == old(self).memo@.contains_key(k)
                        && (old(self).memo@.contains_key(k) ==> final(self).memo@[k] == old(self).memo@[k]))
            }),
            vct_memo_find(final(self).memo@, node, attacker, depth, key, context) == Some(result),
            vmodel(final(self).memo@) == vstored(vmodel(old(self).memo@), node, attacker, depth, key, context, result),
    {
        broadcast use vstd::std_specs::hash::group_hash_axioms;

        let h = memo_hash(node, attacker, depth, key, context);
        let mut bucket = match self.memo.remove(&h) {
            Some(b) => b,
            None => Vec::new(),
        };
        let ghost old_bucket = bucket@;
        proof {
            assert forall|i: int| 0 <= i < old_bucket.len() implies node_result_ok(
                #[trigger] old_bucket[i].node,
                old_bucket[i].entry.result,
            ) by {
                assert(old(self).memo@.contains_key(h));
                assert(old_bucket[i] == old(self).memo@[h]@[i]);
            }
        }
        bucket.push(VctMemoSlot { node, attacker, depth, key, context, entry: VctMemoEntry { depth, result } });
        let ghost new_bucket = bucket@;
        assert(new_bucket.drop_last() =~= old_bucket);
        self.memo.insert(h, bucket);
        assert(self.memo@[h]@ == new_bucket);
        proof {
            let mm = vmodel(self.memo@);
            let st = vstored(vmodel(old(self).memo@), node, attacker, depth, key, context, result);
            assert(old(self).memo@.contains_key(h) ==> old_bucket == old(self).memo@[h]@);
            assert(mm.dom() =~= st.dom());
            assert forall|k: u64| #[trigger] mm.contains_key(k) implies mm[k] == st[k] by {
                if k != h {
                    assert(self.memo@[k] == old(self).memo@[k]);
                }
            }
            assert(mm =~= st);
        }
        assert forall|k: u64, i: int|
            self.memo@.contains_key(k) && 0 <= i < self.memo@[k]@.len() implies node_result_ok(
            #[trigger] self.memo@[k]@[i].node,
            self.memo@[k]@[i].entry.result,
        ) by {
            if k == h {
                assert(self.memo@[k]@ == new_bucket);
                if i < old_bucket.len() {
                    assert(new_bucket[i] == old_bucket[i]);
                }
            } else {
                assert(old(self).memo@.contains_key(k));
                assert(self.memo@[k] == old(self).memo@[k]);
            }
        }
        result
    }

    /// The signature recorded first for `(attacker, depth, board_key)`, if any.
    fn context_signature(&self, attacker: Side, depth: i32, board_key: u64) -> (r: Option<u64>)
        ensures
            ({
                let slots = self.and_memo_context_signatures@;
                let hit = |s: AndContextSlot|
                    s.attacker == attacker && s.depth == depth && s.board_key == board_key;
                match r {
                    Some(sig) => exists|i: int|
                        0 <= i < slots.len() && hit(#[trigger] slots[i]) && slots[i].signature == sig && forall|
                            j: int,
                        | 0 <= j < i ==> !hit(#[trigger] slots[j]),
                    None => forall|j: int| 0 <= j < slots.len() ==> !hit(#[trigger] slots[j]),
                }
            }),
    {
        let ghost hit = |s: AndContextSlot|
            s.attacker == attacker && s.depth == depth && s.board_key == board_key;
        let mut i: usize = 0;
        while i < self.and_memo_context_signatures.len()
            invariant
                i <= self.and_memo_context_signatures@.len(),
                hit == (|s: AndContextSlot|
                    s.attacker == attacker && s.depth == depth && s.board_key == board_key),
                forall|j: int| 0 <= j < i ==> !hit(#[trigger] self.and_memo_context_signatures@[j]),
            decreases self.and_memo_context_signatures@.len() - i,
        {
            let slot = self.and_memo_context_signatures[i];
            if slot.attacker == attacker && slot.depth == depth && slot.board_key == board_key {
                return Some(slot.signature);
            }
            i = i + 1;
        }
        None
    }

    /// Adds `key` to the collision keys; true when it was not there yet.
    fn insert_collision_key(&mut self, key: (Side, i32, u64)) -> (inserted: bool)
        ensures
            final(self).memo == old(self).memo,
            final(self).stats == old(self).stats,
            same_settings(*old(self), *final(self)),
            inserted == !old(self).and_memo_context_collision_keys@.contains(key),
            final(self).and_memo_context_collision_keys@ == if inserted {
                old(self).and_memo_context_collision_keys@.push(key)
            } else {
                old(self).and_memo_context_collision_keys@
            },
            final(self).and_memo_context_signatures == old(self).and_memo_context_signatures,
    {
        let mut i: usize = 0;
        while i < self.and_memo_context_collision_keys.len()
            invariant
                i <= self.and_memo_context_collision_keys@.len(),
                self.and_memo_context_collision_keys@ == old(self).and_memo_context_collision_keys@,
                forall|j: int| 0 <= j < i ==> #[trigger] self.and_memo_context_collision_keys@[j] != key,
            decreases self.and_memo_context_collision_keys@.len() - i,
        {
            let k = self.and_memo_context_collision_keys[i];
            if k.0 == key.0 && k.1 == key.1 && k.2 == key.2 {
                return false;
            }
            i = i + 1;
        }
        self.and_memo_context_collision_keys.push(key);
        true
    }

    /// Records the attack seen at an AND node and counts the earlier depths
    /// whose recorded attack for the same position differs from it.
    pub fn observe_and_memo_context(
        &mut self,
        attacker: Side,
        current_depth: i32,
        board_key: u64,
        attack: &AttackMove,
    )
        ensures
            final(self).memo == old(self).memo,
            same_settings(*old(self), *final(self)),
            final(self).stats.depth_limit == old(self).stats.depth_limit,
            final(self).wf() == old(self).wf(),
            !old(self).memo_diagnostics_enabled ==> *final(self) == *old(self),
            old(self).memo_diagnostics_enabled ==> final(self).stats.and_memo_context_observations
                == sat_add(old(self).stats.and_memo_context_observations, 1),
            final(self).stats.and_memo_context_collisions >= old(
                self,
            ).stats.and_memo_context_collisions,
            final(self).stats.and_memo_context_collision_samples@.len() <= if old(
                self,
            ).stats.and_memo_context_collision_samples@.len() < MAX_AND_MEMO_COLLISION_SAMPLES {
                MAX_AND_MEMO_COLLISION_SAMPLES as int
            } else {
                old(self).stats.and_memo_context_collision_samples@.len() as int
            },
    {
        if !self.memo_diagnostics_enabled {
            return;
        }
        self.stats.and_memo_context_observations = self.stats.and_memo_context_observations.saturating_add(
            1,
        );
        let ghost observations = self.stats.and_memo_context_observations;
        let ghost samples_before = old(self).stats.and_memo_context_collision_samples@.len();
        let current_signature = attack_signature(attack);
        let mut observed_depth: i64 = 1;
        while observed_depth <= current_depth as i64
            invariant
                self.memo == old(self).memo,
                same_settings(*old(self), *self),
                self.stats.depth_limit == old(self).stats.depth_limit,
                self.memo_diagnostics_enabled,
                1 <= observed_depth,
                self.stats.and_memo_context_observations == observations,
                self.stats.and_memo_context_collisions >= old(self).stats.and_memo_context_collisions,
                self.stats.and_memo_context_collision_samples@.len() <= if samples_before
                    < MAX_AND_MEMO_COLLISION_SAMPLES {
                    MAX_AND_MEMO_COLLISION_SAMPLES as int
                } else {
                    samples_before as int
                },
            decreases current_depth as i64 + 1 - observed_depth,
        {
            let depth = observed_depth as i32;
            match self.context_signature(attacker, depth, board_key) {
                Some(observed_signature) => {
                    if observed_signature != current_signature {
                        self.stats.and_memo_context_collisions = self.stats.and_memo_context_collisions.saturating_add(
                            1,
                        );
                        if self.insert_collision_key((attacker, depth, board_key)) {
                            self.stats.and_memo_context_collision_keys = self.stats.and_memo_context_collision_keys.saturating_add(
                                1,
                            );
                        }
                        if self.stats.and_memo_context_collision_samples.len()
                            < MAX_AND_MEMO_COLLISION_SAMPLES {
                            let defenses = copy_defenses(&attack.defenses);
                            self.stats.and_memo_context_collision_samples.push(
                                VCTAndMemoCollisionSample {
                                    observed_depth: depth,
                                    current_depth,
                                    board_key,
                                    observed_signature,
                                    current_signature,
                                    attack_move: attack.move_,
                                    attack_level: attack.level.rank(),
                                    defenses,
                                },
                            );
                        }
                    }
                },
                None => {},
            }
            observed_depth = observed_depth + 1;
        }
        if self.context_signature(attacker, current_depth, board_key).is_none() {
            self.and_memo_context_signatures.push(
                AndContextSlot { attacker, depth: current_depth, board_key, signature: current_signature },
            );
        }
    }

    /// The attack signature in strict mode, else 0.
    fn and_memo_context(&self, attack: &AttackMove) -> (c: u64)
        ensures
            c == if self.strict_and_memo_key {
                attack_signature_spec(*attack)
            } else {
                0
            },
    {
        if self.strict_and_memo_key {
            attack_signature(attack)
        } else {
            0
        }
    }
}

fn copy_defenses(v: &Vec<Move>) -> (out: Vec<Move>)
    ensures
        out@ == v@,
{
    let mut out: Vec<Move> = Vec::new();
    let mut i: usize = 0;
    while i < v.len()
        invariant
            i <= v@.len(),
            out@ == v@.subrange(0, i as int),
        decreases v@.len() - i,
    {
        out.push(v[i]);
        i = i + 1;
        assert(out@ =~= v@.subrange(0, i as int));
    }
    assert(out@ =~= v@);
    out
}

/// The four point of `side` as `broken_four_point_for_side` finds it.
pub open spec fn four_point_spec(bm: BoardModel, rule: RuleSet, side: Side) -> (Option<Move>, bool) {
    if rule == RuleSet::Freestyle {
        bfp_from(bm.cells, side, 0, None)
    } else {
        blp_from(bm, rule, side, 0, None)
    }
}

/// Playing `m` gives `side` a five or a winning open four.
pub open spec fn counter_win(bm: BoardModel, rule: RuleSet, side: Side, m: Move) -> bool {
    let bm2 = view_after_play(bm, m, side, rule);
    rule_legal(bm, m, side, rule) && (bm2.winner == side || winning_a4_spec(
        bm2,
        rule,
        m as int % 15,
        m as int / 15,
    ))
}

/// Playing the unseen move `m` gives `side` no win but `tier` 0: a four, or
/// tier 1: no four but a real open three.
pub open spec fn counter_forcing(bm: BoardModel, rule: RuleSet, side: Side, seen: Seq<bool>, m: Move, tier: int) -> bool {
    let bm2 = view_after_play(bm, m, side, rule);
    let x = m as int % 15;
    let y = m as int / 15;
    &&& !seen[m as int]
    &&& rule_legal(bm, m, side, rule)
    &&& !counter_win(bm, rule, side, m)
    &&& if tier == 0 {
        b4_count_spec(bm2.cells, x, y) >= 1
    } else {
        b4_count_spec(bm2.cells, x, y) < 1 && a3r_count_spec(bm2, rule, x, y) >= 1
    }
}

/// A defence stage result: a refutation is a well-formed unfound result.
/// A defence the stage plays: not seen before the stage and legal for the
/// defender.
pub open spec fn tried(seen: Seq<bool>, bm: BoardModel, rule: RuleSet, defender: Side, m: Move) -> bool {
    !seen[m as int] && rule_legal(bm, m, defender, rule)
}

spec fn stage_ok(r: DefenseStageResult) -> bool {
    r.refutation matches Some(res) ==> vct_result_ok(res) && !res.found
}

// ---------------------------------------------------------------------------
// The search as a function: the memo as a map of buckets of records, and the
// OR and AND nodes over it.
// ---------------------------------------------------------------------------

/// The memo as plain values.
pub open spec fn vmodel(m: Map<u64, Vec<VctMemoSlot>>) -> Map<u64, Seq<VctMemoSlot>> {
    Map::new(|k: u64| m.contains_key(k), |k: u64| m[k]@)
}

pub open spec fn vfind(
    mm: Map<u64, Seq<VctMemoSlot>>,
    node: i32,
    attacker: Side,
    depth: i32,
    key: u64,
    context: u64,
) -> Option<VCTResult> {
    let h = memo_hash_spec(node, attacker, depth, key, context);
    if mm.contains_key(h) {
        latest_result(mm[h], node, attacker, depth, key, context)
    } else {
        None
    }
}

pub open spec fn vshallow(
    mm: Map<u64, Seq<VctMemoSlot>>,
    node: i32,
    attacker: Side,
    d: i32,
    depth: i32,
    key: u64,
    context: u64,
) -> Option<VCTResult>
    decreases depth - d,
{
    if d >= depth {
        None
    } else {
        match vfind(mm, node, attacker, d, key, context) {
            Some(res) => if res.found || res.solved {
                Some(res)
            } else {
                vshallow(mm, node, attacker, (d + 1) as i32, depth, key, context)
            },
            None => vshallow(mm, node, attacker, (d + 1) as i32, depth, key, context),
        }
    }
}

/// A memo answer: the record of the same depth, or else the first
/// shallower one that is a win or solved.
pub open spec fn vanswer(
    mm: Map<u64, Seq<VctMemoSlot>>,
    node: i32,
    attacker: Side,
    depth: i32,
    key: u64,
    context: u64,
) -> Option<VCTResult> {
    match vfind(mm, node, attacker, depth, key, context) {
        Some(res) => Some(res),
        None => vshallow(mm, node, attacker, 1, depth, key, context),
    }
}

/// The memo after storing `result` under the key.
pub open spec fn vstored(
    mm: Map<u64, Seq<VctMemoSlot>>,
    node: i32,
    attacker: Side,
    depth: i32,
    key: u64,
    context: u64,
    result: VCTResult,
) -> Map<u64, Seq<VctMemoSlot>> {
    let h = memo_hash_spec(node, attacker, depth, key, context);
    let before = if mm.contains_key(h) {
        mm[h]
    } else {
        Seq::empty()
    };
    mm.insert(h, before.push(VctMemoSlot { node, attacker, depth, key, context, entry: VctMemoEntry { depth, result } }))
}

proof fn lemma_vshallow(
    m: Map<u64, Vec<VctMemoSlot>>,
    node: i32,
    attacker: Side,
    d: i32,
    depth: i32,
    key: u64,
    context: u64,
)
    ensures
        shallow_answer(m, node, attacker, d, depth, key, context) == vshallow(
            vmodel(m),
            node,
            attacker,
            d,
            depth,
            key,
            context,
        ),
    decreases depth - d,
{
    if d < depth {
        lemma_vshallow(m, node, attacker, (d + 1) as i32, depth, key, context);
    }
}

proof fn lemma_vanswer(m: Map<u64, Vec<VctMemoSlot>>, node: i32, attacker: Side, depth: i32, key: u64, context: u64)
    ensures
        memo_answer_at(m, node, attacker, depth, key, context) == vanswer(
            vmodel(m),
            node,
            attacker,
            depth,
            key,
            context,
        ),
{
    lemma_vshallow(m, node, attacker, 1, depth, key, context);
}

pub open spec fn vct_win(m: Move) -> VCTResult {
    VCTResult { move_: Some(m), found: true, solved: true }
}

pub open spec fn vct_solved_loss() -> VCTResult {
    VCTResult { move_: None, found: false, solved: true }
}

/// The context of an AND node: the attack's signature in strict mode, else 0.
pub open spec fn and_context_spec(strict: bool, a: (Move, ThreatLevel, Seq<Move>)) -> u64 {
    if strict {
        view_signature(a)
    } else {
        0
    }
}

/// An attack that wins at once: a five, or an open four that the defender
/// cannot answer with a four point of their own.
pub open spec fn immediate_attack_win(bm: BoardModel, rule: RuleSet, attacker: Side, a: (Move, ThreatLevel, Seq<Move>)) -> bool {
    level_rank(a.1) >= 3 && (level_rank(a.1) >= 4 || four_point_spec(
        view_after_play(bm, a.0, attacker, rule),
        rule,
        -attacker as i8,
    ).0.is_none())
}

/// The attacks of `attacker` on `bm`, in the order they are tried.
#[verifier::opaque]
pub open spec fn attack_list(bm: BoardModel, rule: RuleSet, attacker: Side) -> Seq<(Move, ThreatLevel, Seq<Move>)> {
    collected_attacks_spec(bm, rule, attacker)
}

/// The OR node: the attacker's result and the memo after it.
pub open spec fn or_run(
    memo: Map<u64, Seq<VctMemoSlot>>,
    bm: BoardModel,
    rule: RuleSet,
    attacker: Side,
    depth: int,
    strict: bool,
) -> (VCTResult, Map<u64, Seq<VctMemoSlot>>)
    decreases (if depth <= 0 {
        0int
    } else {
        3 * depth
    }), 2int, 0int,
{
    if depth <= 0 {
        (vct_unresolved(), memo)
    } else if bm.winner == attacker {
        (VCTResult { move_: None, found: true, solved: true }, memo)
    } else if bm.winner == (-attacker) as i8 {
        (vct_solved_loss(), memo)
    } else {
        match vanswer(memo, OR_NODE, attacker, depth as i32, bm.key, 0) {
            Some(c) => (c, memo),
            None => {
                let (res, m2) = attacks_run(
                    memo,
                    bm,
                    rule,
                    attacker,
                    depth,
                    strict,
                    attack_list(bm, rule, attacker),
                    0,
                    true,
                );
                (res, vstored(m2, OR_NODE, attacker, depth as i32, bm.key, 0, res))
            },
        }
    }
}

/// Trying the attacks `attacks[i..]` in turn: the first that wins at once,
/// or whose AND node is a win, wins.
pub open spec fn attacks_run(
    memo: Map<u64, Seq<VctMemoSlot>>,
    bm: BoardModel,
    rule: RuleSet,
    attacker: Side,
    depth: int,
    strict: bool,
    attacks: Seq<(Move, ThreatLevel, Seq<Move>)>,
    i: int,
    solved: bool,
) -> (VCTResult, Map<u64, Seq<VctMemoSlot>>)
    decreases (if depth <= 0 {
        0int
    } else {
        3 * depth
    }), 1int, attacks.len() - i,
{
    if depth <= 0 || i < 0 || i >= attacks.len() {
        (VCTResult { move_: None, found: false, solved }, memo)
    } else {
        let (o, m2) = attack_outcome(memo, bm, rule, attacker, depth, strict, attacks[i]);
        if o.found {
            (o, m2)
        } else {
            attacks_run(m2, bm, rule, attacker, depth, strict, attacks, i + 1, solved && o.solved)
        }
    }
}

/// One attack: a win at once, or else the AND node's result (from the memo
/// when it holds one), a found AND node naming the attack's move.
pub open spec fn attack_outcome(
    memo: Map<u64, Seq<VctMemoSlot>>,
    bm: BoardModel,
    rule: RuleSet,
    attacker: Side,
    depth: int,
    strict: bool,
    a: (Move, ThreatLevel, Seq<Move>),
) -> (VCTResult, Map<u64, Seq<VctMemoSlot>>)
    decreases (if depth <= 0 {
        0int
    } else {
        3 * depth
    }), 0int, 0int,
{
    if depth <= 0 {
        (vct_unresolved(), memo)
    } else if immediate_attack_win(bm, rule, attacker, a) {
        (vct_win(a.0), memo)
    } else {
        let after = view_after_play(bm, a.0, attacker, rule);
        let (ar, m2) = match vanswer(memo, AND_NODE, attacker, depth as i32, after.key, and_context_spec(strict, a)) {
            Some(c) => (c, memo),
            None => and_run(memo, after, rule, attacker, depth, strict, a),
        };
        if ar.found {
            (vct_win(a.0), m2)
        } else {
            (ar, m2)
        }
    }
}

/// The AND node after the attack `a`: counter wins, then the attack's
/// defences, then counter fours and threes; the first refutation stands.
pub open spec fn and_run(
    memo: Map<u64, Seq<VctMemoSlot>>,
    bm: BoardModel,
    rule: RuleSet,
    attacker: Side,
    depth: int,
    strict: bool,
    a: (Move, ThreatLevel, Seq<Move>),
) -> (VCTResult, Map<u64, Seq<VctMemoSlot>>)
    decreases (if depth <= 0 {
        0int
    } else {
        3 * depth - 1
    }), 1int, 0int,
{
    let ctx = and_context_spec(strict, a);
    if depth <= 0 {
        (vct_unresolved(), memo)
    } else {
        match vanswer(memo, AND_NODE, attacker, depth as i32, bm.key, ctx) {
            Some(c) => (c, memo),
            None => {
                let def = (-attacker) as i8;
                let tm = threat_moves_spec(bm, def, rule);
                let cw = filter_moves(tm, |m: Move| counter_win(bm, rule, def, m), tm.len() as int);
                let (s1, m1, seen1) = stage_run(
                    memo,
                    bm,
                    rule,
                    attacker,
                    depth,
                    strict,
                    a.1,
                    cw,
                    0,
                    Seq::new(225, |k: int| false),
                    true,
                    false,
                );
                if s1.refutation is Some {
                    (s1.refutation->0, vstored(m1, AND_NODE, attacker, depth as i32, bm.key, ctx, s1.refutation->0))
                } else {
                    let (s2, m2, seen2) = stage_run(m1, bm, rule, attacker, depth, strict, a.1, a.2, 0, seen1, true, false);
                    if s2.refutation is Some {
                        (s2.refutation->0, vstored(m2, AND_NODE, attacker, depth as i32, bm.key, ctx, s2.refutation->0))
                    } else {
                        let cf = filter_moves(
                            tm,
                            |m: Move| counter_forcing(bm, rule, def, seen2, m, 0),
                            tm.len() as int,
                        ) + filter_moves(tm, |m: Move| counter_forcing(bm, rule, def, seen2, m, 1), tm.len() as int);
                        let (s3, m3, seen3) = stage_run(m2, bm, rule, attacker, depth, strict, a.1, cf, 0, seen2, true, false);
                        if s3.refutation is Some {
                            (s3.refutation->0, vstored(m3, AND_NODE, attacker, depth as i32, bm.key, ctx, s3.refutation->0))
                        } else {
                            let res = VCTResult {
                                move_: None,
                                found: true,
                                solved: (s1.solved && s2.solved && s3.solved) || !(s1.searched || s2.searched
                                    || s3.searched),
                            };
                            (res, vstored(m3, AND_NODE, attacker, depth as i32, bm.key, ctx, res))
                        }
                    }
                }
            },
        }
    }
}

/// One defence stage over `defs[i..]`: each unseen, rule-legal defence is
/// tried; a defender five (or winning open four against an open three)
/// refutes, and so does a reply after which the attacker does not win.
pub open spec fn stage_run(
    memo: Map<u64, Seq<VctMemoSlot>>,
    bm: BoardModel,
    rule: RuleSet,
    attacker: Side,
    depth: int,
    strict: bool,
    level: ThreatLevel,
    defs: Seq<Move>,
    i: int,
    seen: Seq<bool>,
    solved: bool,
    searched: bool,
) -> (DefenseStageResult, Map<u64, Seq<VctMemoSlot>>, Seq<bool>)
    decreases (if depth <= 0 {
        0int
    } else {
        3 * depth - 2
    }), 0int, defs.len() - i,
{
    if depth <= 0 || i < 0 || i >= defs.len() {
        (DefenseStageResult { refutation: None, solved, searched }, memo, seen)
    } else {
        let d = defs[i];
        let def = (-attacker) as i8;
        if seen[d as int] {
            stage_run(memo, bm, rule, attacker, depth, strict, level, defs, i + 1, seen, solved, searched)
        } else if !rule_legal(bm, d, def, rule) {
            stage_run(memo, bm, rule, attacker, depth, strict, level, defs, i + 1, seen.update(d as int, true), solved, searched)
        } else {
            let seen2 = seen.update(d as int, true);
            let after = view_after_play(bm, d, def, rule);
            if after.winner == def || (level_rank(level) < 2 && winning_a4_spec(
                after,
                rule,
                (d % 15) as int,
                (d / 15) as int,
            )) {
                (DefenseStageResult { refutation: Some(vct_solved_loss()), solved: true, searched: true }, memo, seen2)
            } else {
                let (orr, m2) = or_run(memo, after, rule, attacker, depth - 1, strict);
                if !orr.found {
                    (
                        DefenseStageResult {
                            refutation: Some(VCTResult { move_: None, found: false, solved: orr.solved }),
                            solved: orr.solved,
                            searched: true,
                        },
                        m2,
                        seen2,
                    )
                } else {
                    stage_run(m2, bm, rule, attacker, depth, strict, level, defs, i + 1, seen2, solved && orr.solved, true)
                }
            }
        }
    }
}

/// Iterative deepening of the OR node from `d` up to `depth`; the first
/// win or solved result stands.
pub open spec fn deepen_vct(
    memo: Map<u64, Seq<VctMemoSlot>>,
    bm: BoardModel,
    rule: RuleSet,
    side: Side,
    d: int,
    depth: int,
    strict: bool,
    last: VCTResult,
) -> (VCTResult, Map<u64, Seq<VctMemoSlot>>)
    decreases depth + 1 - d,
{
    if d > depth || d < 1 {
        (last, memo)
    } else {
        let (r, m2) = or_run(memo, bm, rule, side, d, strict);
        if r.found || r.solved || d == depth {
            (r, m2)
        } else {
            deepen_vct(m2, bm, rule, side, d + 1, depth, strict, r)
        }
    }
}

/// The outcome of the VCT search of `side` on `bm` to `depth`.
pub open spec fn vct_outcome(bm: BoardModel, rule: RuleSet, side: Side, depth: int, strict: bool) -> VCTResult {
    if depth <= 0 {
        vct_unresolved()
    } else if bm.winner != EMPTY {
        vct_solved_loss()
    } else {
        deepen_vct(Map::empty(), bm, rule, side, 1, depth, strict, vct_unresolved()).0
    }
}

impl VCTSearcher {
    pub fn search(&mut self, board: &Board, side: Side, depth: i32) -> (r: VCTResult)
        requires
            old(self).wf(),
            board.wf(),
            valid_side(side),
        ensures
            r == vct_outcome(board@, RuleSet::Freestyle, side, depth as int, old(self).strict_and_memo_key),
            final(self).wf(),
            same_settings(*old(self), *final(self)),
            node_result_ok(OR_NODE, r),
            depth <= 0 ==> r == vct_unresolved(),
            depth > 0 && board@.winner != EMPTY ==> r == (VCTResult {
                move_: None,
                found: false,
                solved: true,
            }),
            final(self).stats.depth_limit == if depth > 0 {
                depth
            } else {
                0
            },
    {
        self.search_for_rule(board, side, depth, RuleSet::Freestyle)
    }

    /// Iterative deepening from depth 1 up to `depth`; stops at the first
    /// result that is found or solved.
    pub fn search_for_rule(&mut self, board: &Board, side: Side, depth: i32, rule: RuleSet) -> (r:
        VCTResult)
        requires
            old(self).wf(),
            board.wf(),
            valid_side(side),
        ensures
            r == vct_outcome(board@, rule, side, depth as int, old(self).strict_and_memo_key),
            final(self).wf(),
            same_settings(*old(self), *final(self)),
            node_result_ok(OR_NODE, r),
            depth <= 0 ==> r == vct_unresolved(),
            depth > 0 && board@.winner != EMPTY ==> r == (VCTResult {
                move_: None,
                found: false,
                solved: true,
            }),
            final(self).stats.depth_limit == if depth > 0 {
                depth
            } else {
                0
            },
    {
        let mut stats = VCTStats::default();
        stats.depth_limit = if depth > 0 {
            depth
        } else {
            0
        };
        self.stats = stats;
        if depth <= 0 {
            return VCTResult { move_: None, found: false, solved: false };
        }
        if board.winner() != EMPTY {
            return VCTResult { move_: None, found: false, solved: true };
        }
        let mut view = ThreatBoardView::from_board_with_rule(board.duplicate(), rule);
        self.memo.clear();
        self.and_memo_context_signatures.clear();
        self.and_memo_context_collision_keys.clear();
        assert(vmodel(self.memo@) =~= Map::empty());
        let ghost strict = old(self).strict_and_memo_key;
        let ghost target = deepen_vct(Map::empty(), board@, rule, side, 1, depth as int, strict, vct_unresolved()).0;
        let total_start = std::time::Instant::now();
        let mut result = VCTResult { move_: None, found: false, solved: false };
        let mut d: i32 = 1;
        while d <= depth
            invariant_except_break
                target == deepen_vct(vmodel(self.memo@), board@, rule, side, d as int, depth as int, strict, result).0,
            invariant
                self.wf(),
                same_settings(*old(self), *self),
                view.wf(),
                valid_side(side),
                self.stats.depth_limit == depth,
                board@.winner == EMPTY,
                1 <= d,
                d <= depth,
                depth > 0,
                node_result_ok(OR_NODE, result),
                view.board@ == board@,
                view.rule() == rule,
                self.strict_and_memo_key == strict,
                strict == old(self).strict_and_memo_key,
                target == vct_outcome(board@, rule, side, depth as int, strict),
            ensures
                result == target,
            decreases depth + 1 - d,
        {
            let before = self.stats.snapshot();
            self.stats.current_depth_max_attack_count = 0;
            self.stats.current_depth_max_defense_count = 0;
            let depth_start = std::time::Instant::now();
            let ghost memo_before = vmodel(self.memo@);
            let ghost previous = result;
            result = self.or_node(&mut view, side, d);
            assert(deepen_vct(memo_before, board@, rule, side, d as int, depth as int, strict, previous).0 == if result.found
                || result.solved || d == depth {
                result
            } else {
                deepen_vct(vmodel(self.memo@), board@, rule, side, d + 1, depth as int, strict, result).0
            });
            self.stats.depth_completed = d;
            let elapsed = depth_start.elapsed();
            let delta = self.stats.depth_delta(before, d, elapsed.as_micros(), result);
            self.stats.depth_stats.push(delta);
            assert(self.strict_and_memo_key == strict);
            if result.found || result.solved {
                let total = total_start.elapsed();
                self.stats.elapsed_us = total.as_micros();
                return result;
            }
            if d == depth {
                break;
            }
            d = d + 1;
        }
        let total = total_start.elapsed();
        self.stats.elapsed_us = total.as_micros();
        result
    }

    /// OR node: the attacker looks for an attack that wins.
    #[verifier::rlimit(80)]
    fn or_node(&mut self, view: &mut ThreatBoardView, attacker: Side, depth: i32) -> (r: VCTResult)
        requires
            old(self).wf(),
            old(view).wf(),
            valid_side(attacker),
        ensures
            final(self).wf(),
            same_settings(*old(self), *final(self)),
            final(self).stats.depth_limit == old(self).stats.depth_limit,
            view_restored(*old(view), *final(view)),
            node_result_ok(OR_NODE, r),
            depth <= 0 ==> r == vct_unresolved(),
            (r, vmodel(final(self).memo@)) == or_run(
                vmodel(old(self).memo@),
                old(view).board@,
                old(view).rule(),
                attacker,
                depth as int,
                old(self).strict_and_memo_key,
            ),
        decreases (if depth <= 0 {
            0int
        } else {
            4 * depth
        }),
    {
        self.stats.or_nodes = self.stats.or_nodes.saturating_add(1);
        if depth <= 0 {
            return VCTResult { move_: None, found: false, solved: false };
        }
        if view.board.winner() == attacker {
            return VCTResult { move_: None, found: true, solved: true };
        }
        let defender: Side = -attacker;
        if view.board.winner() == defender {
            return VCTResult { move_: None, found: false, solved: true };
        }
        let key = view.board.zobrist_key();
        proof {
            lemma_vanswer(self.memo@, OR_NODE, attacker, depth, key, 0);
        }
        if let Some(cached) = self.memo_lookup(OR_NODE, attacker, depth, key, 0) {
            return cached;
        }
        let ghost v0 = *view;
        let ghost bm = view.board@;
        let ghost rule = view.rule();
        let ghost strict = self.strict_and_memo_key;
        let ghost m0 = vmodel(self.memo@);
        let attacks = view.collect_attack_moves(attacker);
        let ghost av = attack_views(attacks@);
        proof {
            reveal(attack_list);
        }
        assert(av == attack_list(bm, rule, attacker));
        self.stats.attacks_generated = self.stats.attacks_generated.saturating_add(attacks.len());
        self.stats.max_attack_count = max_usize(self.stats.max_attack_count, attacks.len());
        self.stats.current_depth_max_attack_count = max_usize(
            self.stats.current_depth_max_attack_count,
            attacks.len(),
        );
        if attacks.len() == 0 {
            return self.store(
                OR_NODE,
                attacker,
                depth,
                key,
                0,
                VCTResult { move_: None, found: false, solved: true },
            );
        }
        let mut solved = true;
        let mut i: usize = 0;
        while i < attacks.len()
            invariant
                self.wf(),
                same_settings(*old(self), *self),
                self.stats.depth_limit == old(self).stats.depth_limit,
                view_restored(v0, *view),
                v0 == *old(view),
                bm == v0.board@,
                rule == v0.rule(),
                valid_side(attacker),
                depth > 0,
                key == bm.key,
                bm.winner != attacker,
                bm.winner != (-attacker) as i8,
                strict == old(self).strict_and_memo_key,
                self.strict_and_memo_key == strict,
                m0 == vmodel(old(self).memo@),
                vanswer(m0, OR_NODE, attacker, depth, bm.key, 0).is_none(),
                av == attack_views(attacks@),
                av == attack_list(bm, rule, attacker),
                attacks_run(m0, bm, rule, attacker, depth as int, strict, av, 0, true) == attacks_run(
                    vmodel(self.memo@),
                    bm,
                    rule,
                    attacker,
                    depth as int,
                    strict,
                    av,
                    i as int,
                    solved,
                ),
                i <= attacks@.len(),
                forall|j: int|
                    0 <= j < attacks@.len() ==> attack_playable(
                        #[trigger] attacks@[j],
                        bm,
                        attacker,
                        rule,
                    ),
            decreases attacks@.len() - i,
        {
            let attack = &attacks[i];
            assert(attack_playable(attacks@[i as int], bm, attacker, rule));
            assert(av[i as int] == attack_view(*attack));
            let outcome = self.try_attack(view, attacker, depth, attack);
            if outcome.found {
                return self.store(OR_NODE, attacker, depth, key, 0, outcome);
            }
            if !outcome.solved {
                solved = false;
            }
            i = i + 1;
        }
        self.store(OR_NODE, attacker, depth, key, 0, VCTResult { move_: None, found: false, solved })
    }

    /// One attack of the OR node: a win at once, or else the AND node's
    /// result, from the memo when it holds one.
    #[verifier::rlimit(40)]
    fn try_attack(&mut self, view: &mut ThreatBoardView, attacker: Side, depth: i32, attack: &AttackMove) -> (r:
        VCTResult)
        requires
            old(self).wf(),
            old(view).wf(),
            valid_side(attacker),
            depth > 0,
            attack_playable(*attack, old(view).board@, attacker, old(view).rule()),
        ensures
            final(self).wf(),
            same_settings(*old(self), *final(self)),
            final(self).stats.depth_limit == old(self).stats.depth_limit,
            view_restored(*old(view), *final(view)),
            vct_result_ok(r),
            r.found ==> r == vct_win(attack.move_) && attack.move_ < BOARD_AREA,
            (r, vmodel(final(self).memo@)) == attack_outcome(
                vmodel(old(self).memo@),
                old(view).board@,
                old(view).rule(),
                attacker,
                depth as int,
                old(self).strict_and_memo_key,
                attack_view(*attack),
            ),
        decreases 4 * depth - 1,
    {
        let ghost v0 = *view;
        let ghost bm = view.board@;
        let ghost rule = view.rule();
        proof {
            lemma_rule_legal_is_legal(bm, attack.move_, attacker, rule);
        }
        if attack.level.rank() >= 3 && self.a4_attack_wins_immediately(view, attacker, attack) {
            return VCTResult { move_: Some(attack.move_), found: true, solved: true };
        }
        proof {
            lemma_rule_legal_is_legal(bm, attack.move_, attacker, rule);
        }
        view.play(attack.move_, attacker);
        let and_key = view.board.zobrist_key();
        let and_context = self.and_memo_context(attack);
        self.observe_and_memo_context(attacker, depth, and_key, attack);
        proof {
            lemma_vanswer(self.memo@, AND_NODE, attacker, depth, and_key, and_context);
        }
        let and_result = match self.memo_lookup(AND_NODE, attacker, depth, and_key, and_context) {
            Some(cached) => cached,
            None => self.and_node_for_attack(view, attacker, depth, attack),
        };
        view.undo();
        proof {
            lemma_play_undo_restores(bm, attack.move_, attacker, rule);
            assert(view.saved_sides() =~= v0.saved_sides());
        }
        if and_result.found {
            return VCTResult { move_: Some(attack.move_), found: true, solved: true };
        }
        and_result
    }

    /// A five wins at once; an open four wins at once only when the defender
    /// has no four of their own left to complete first.
    fn a4_attack_wins_immediately(&self, view: &mut ThreatBoardView, attacker: Side, attack: &AttackMove) -> (b:
        bool)
        requires
            old(view).wf(),
            valid_side(attacker),
            attack_playable(*attack, old(view).board@, attacker, old(view).rule()),
        ensures
            view_restored(*old(view), *final(view)),
            b == (level_rank(attack.level) >= 4 || four_point_spec(
                view_after_play(old(view).board@, attack.move_, attacker, old(view).rule()),
                old(view).rule(),
                -attacker as i8,
            ).0.is_none()),
    {
        if attack.level.rank() >= 4 {
            return true;
        }
        let ghost v0 = *view;
        proof {
            lemma_rule_legal_is_legal(v0.board@, attack.move_, attacker, v0.rule());
        }
        view.play(attack.move_, attacker);
        let defender: Side = -attacker;
        let defender_five = view.broken_four_point_for_side(defender).0;
        view.undo();
        proof {
            lemma_play_undo_restores(v0.board@, attack.move_, attacker, v0.rule());
            assert(view.saved_sides() =~= v0.saved_sides());
        }
        defender_five.is_none()
    }

    /// AND node: the defender tries counter wins, the attack's defences, then
    /// counter fours and threes; the attack stands if none refutes it.
    fn and_node_for_attack(&mut self, view: &mut ThreatBoardView, attacker: Side, depth: i32, attack: &AttackMove) -> (r:
        VCTResult)
        requires
            old(self).wf(),
            old(view).wf(),
            valid_side(attacker),
            depth > 0,
            forall|i: int| 0 <= i < attack.defenses@.len() ==> #[trigger] attack.defenses@[i] < BOARD_AREA,
        ensures
            final(self).wf(),
            same_settings(*old(self), *final(self)),
            final(self).stats.depth_limit == old(self).stats.depth_limit,
            view_restored(*old(view), *final(view)),
            vct_result_ok(r),
            (r, vmodel(final(self).memo@)) == and_run(
                vmodel(old(self).memo@),
                old(view).board@,
                old(view).rule(),
                attacker,
                depth as int,
                old(self).strict_and_memo_key,
                attack_view(*attack),
            ),
        decreases 4 * depth - 2,
    {
        self.stats.and_nodes = self.stats.and_nodes.saturating_add(1);
        let key = view.board.zobrist_key();
        let context = self.and_memo_context(attack);
        proof {
            lemma_vanswer(self.memo@, AND_NODE, attacker, depth, key, context);
        }
        if let Some(cached) = self.memo_lookup(AND_NODE, attacker, depth, key, context) {
            return cached;
        }
        let mut seen: [bool; 225] = [false; 225];
        assert(seen@ =~= Seq::new(225, |k: int| false));
        let mut seen_count: usize = 0;
        let mut searched_any = false;
        let mut solved = true;
        let counter_wins = self.collect_counter_wins(view, attacker);
        let win_stage = self.search_defense_stage(
            view,
            attacker,
            depth,
            attack.level,
            counter_wins.as_slice(),
            &mut seen,
            &mut seen_count,
        );
        if let Some(result) = win_stage.refutation {
            return self.store(AND_NODE, attacker, depth, key, context, result);
        }
        searched_any = searched_any || win_stage.searched;
        solved = solved && win_stage.solved;
        let forced_stage = self.search_defense_stage(
            view,
            attacker,
            depth,
            attack.level,
            attack.defenses.as_slice(),
            &mut seen,
            &mut seen_count,
        );
        if let Some(result) = forced_stage.refutation {
            return self.store(AND_NODE, attacker, depth, key, context, result);
        }
        searched_any = searched_any || forced_stage.searched;
        solved = solved && forced_stage.solved;
        let counter_forcing = self.collect_counter_forcing_defenses(view, attacker, &seen);
        let counter_stage = self.search_defense_stage(
            view,
            attacker,
            depth,
            attack.level,
            counter_forcing.as_slice(),
            &mut seen,
            &mut seen_count,
        );
        if let Some(result) = counter_stage.refutation {
            return self.store(AND_NODE, attacker, depth, key, context, result);
        }
        searched_any = searched_any || counter_stage.searched;
        solved = solved && counter_stage.solved;
        self.store(
            AND_NODE,
            attacker,
            depth,
            key,
            context,
            VCTResult { move_: None, found: true, solved: solved || !searched_any },
        )
    }

    /// Tries each unseen, rule-legal defence: a defender five refutes any
    /// attack, a defender winning open four refutes an open three, and
    /// otherwise the attacker must still win from the reply.
    fn search_defense_stage(
        &mut self,
        view: &mut ThreatBoardView,
        attacker: Side,
        depth: i32,
        attack_level: ThreatLevel,
        defenses: &[Move],
        seen: &mut [bool; 225],
        seen_count: &mut usize,
    ) -> (r: DefenseStageResult)
        requires
            old(self).wf(),
            old(view).wf(),
            valid_side(attacker),
            depth > 0,
            forall|i: int| 0 <= i < defenses@.len() ==> #[trigger] defenses@[i] < BOARD_AREA,
        ensures
            final(self).wf(),
            same_settings(*old(self), *final(self)),
            final(self).stats.depth_limit == old(self).stats.depth_limit,
            view_restored(*old(view), *final(view)),
            stage_ok(r),
            r.searched == exists|j: int|
                0 <= j < defenses@.len() && #[trigger] tried(
                    old(seen)@,
                    old(view).board@,
                    old(view).rule(),
                    (-attacker) as i8,
                    defenses@[j],
                ),
            forall|k: int| 0 <= k < 225 && old(seen)@[k] ==> #[trigger] final(seen)@[k],
            r.refutation.is_none() ==> forall|j: int|
                0 <= j < defenses@.len() ==> #[trigger] final(seen)@[defenses@[j] as int],
            (r, vmodel(final(self).memo@), final(seen)@) == stage_run(
                vmodel(old(self).memo@),
                old(view).board@,
                old(view).rule(),
                attacker,
                depth as int,
                old(self).strict_and_memo_key,
                attack_level,
                defenses@,
                0,
                old(seen)@,
                true,
                false,
            ),
        decreases 4 * depth - 3,
    {
        let ghost v0 = *view;
        let ghost bm = view.board@;
        let ghost rule = view.rule();
        let defender: Side = -attacker;
        let mut solved = true;
        let mut searched = false;
        let mut i: usize = 0;
        while i < defenses.len()
            invariant
                self.wf(),
                same_settings(*old(self), *self),
                self.stats.depth_limit == old(self).stats.depth_limit,
                view_restored(v0, *view),
                v0 == *old(view),
                bm == v0.board@,
                rule == v0.rule(),
                valid_side(attacker),
                defender == -attacker,
                depth > 0,
                i <= defenses@.len(),
                forall|j: int| 0 <= j < defenses@.len() ==> #[trigger] defenses@[j] < BOARD_AREA,
                forall|k: int| 0 <= k < 225 && old(seen)@[k] ==> #[trigger] seen@[k],
                forall|k: int|
                    0 <= k < 225 && #[trigger] seen@[k] ==> old(seen)@[k] || exists|j: int|
                        0 <= j < i && defenses@[j] == k,
                forall|j: int| 0 <= j < i ==> #[trigger] seen@[defenses@[j] as int],
                searched == exists|j: int|
                    0 <= j < i && #[trigger] tried(old(seen)@, bm, rule, defender, defenses@[j]),
                stage_run(
                    vmodel(old(self).memo@),
                    bm,
                    rule,
                    attacker,
                    depth as int,
                    old(self).strict_and_memo_key,
                    attack_level,
                    defenses@,
                    0,
                    old(seen)@,
                    true,
                    false,
                ) == stage_run(
                    vmodel(self.memo@),
                    bm,
                    rule,
                    attacker,
                    depth as int,
                    old(self).strict_and_memo_key,
                    attack_level,
                    defenses@,
                    i as int,
                    seen@,
                    solved,
                    searched,
                ),
            decreases defenses@.len() - i,
        {
            let d_move = defenses[i];
            let idx = d_move as usize;
            if !seen[idx] {
                assert(!old(seen)@[idx as int]);
                seen[idx] = true;
                *seen_count = seen_count.saturating_add(1);
                if view.is_rule_legal(d_move, defender) {
                    assert(tried(old(seen)@, bm, rule, defender, defenses@[i as int]));
                    assert(defender == (-attacker) as i8);
                    searched = true;
                    self.stats.defenses_generated = self.stats.defenses_generated.saturating_add(1);
                    self.stats.max_defense_count = max_usize(self.stats.max_defense_count, *seen_count);
                    self.stats.current_depth_max_defense_count = max_usize(
                        self.stats.current_depth_max_defense_count,
                        *seen_count,
                    );
                    proof {
                        lemma_rule_legal_is_legal(bm, d_move, defender, rule);
                    }
                    view.play(d_move, defender);
                    let dx = (d_move % 15) as usize;
                    let dy = (d_move / 15) as usize;
                    if view.board.winner() == defender || (attack_level.rank() < 2 && view.has_winning_a4(
                        dx,
                        dy,
                    )) {
                        view.undo();
                        proof {
                            lemma_play_undo_restores(bm, d_move, defender, rule);
                            assert(view.saved_sides() =~= v0.saved_sides());
                        }
                        assert(tried(old(seen)@, old(view).board@, old(view).rule(), (-attacker) as i8, defenses@[i as int]));
                        return DefenseStageResult {
                            refutation: Some(VCTResult { move_: None, found: false, solved: true }),
                            solved: true,
                            searched,
                        };
                    }
                    let or_result = self.or_node(view, attacker, depth - 1);
                    view.undo();
                    proof {
                        lemma_play_undo_restores(bm, d_move, defender, rule);
                        assert(view.saved_sides() =~= v0.saved_sides());
                    }
                    if !or_result.found {
                        assert(tried(old(seen)@, old(view).board@, old(view).rule(), (-attacker) as i8, defenses@[i as int]));
                        return DefenseStageResult {
                            refutation: Some(
                                VCTResult { move_: None, found: false, solved: or_result.solved },
                            ),
                            solved: or_result.solved,
                            searched,
                        };
                    }
                    if !or_result.solved {
                        solved = false;
                    }
                }
            }
            i = i + 1;
        }
        DefenseStageResult { refutation: None, solved, searched }
    }

    /// The defender's threat moves that win: a five or a winning open four.
    fn collect_counter_wins(&self, view: &mut ThreatBoardView, attacker: Side) -> (wins: Vec<Move>)
        requires
            old(view).wf(),
            valid_side(attacker),
        ensures
            view_restored(*old(view), *final(view)),
            wins@ == filter_moves(
                threat_moves_spec(old(view).board@, -attacker as i8, old(view).rule()),
                |m: Move| counter_win(old(view).board@, old(view).rule(), -attacker as i8, m),
                threat_moves_spec(old(view).board@, -attacker as i8, old(view).rule()).len() as int,
            ),
            forall|i: int| 0 <= i < wins@.len() ==> #[trigger] wins@[i] < BOARD_AREA,
    {
        let defender: Side = -attacker;
        let ghost v0 = *view;
        let ghost bm = view.board@;
        let ghost rule = view.rule();
        let ghost keep = |m: Move| counter_win(bm, rule, defender, m);
        let moves = view.threat_moves(defender);
        let mut counter_wins: Vec<Move> = Vec::new();
        let mut i: usize = 0;
        while i < moves.len()
            invariant
                view_restored(v0, *view),
                bm == v0.board@,
                rule == v0.rule(),
                valid_side(defender),
                keep == (|m: Move| counter_win(bm, rule, defender, m)),
                i <= moves@.len(),
                moves@ == threat_moves_spec(bm, defender, rule),
                counter_wins@ == filter_moves(moves@, keep, i as int),
                forall|j: int| 0 <= j < counter_wins@.len() ==> #[trigger] counter_wins@[j] < BOARD_AREA,
            decreases moves@.len() - i,
        {
            let m = moves[i];
            if view.is_rule_legal(m, defender) {
                proof {
                    lemma_rule_legal_is_legal(bm, m, defender, rule);
                }
                view.play(m, defender);
                let dx = (m % 15) as usize;
                let dy = (m / 15) as usize;
                if view.board.winner() == defender || view.has_winning_a4(dx, dy) {
                    counter_wins.push(m);
                }
                view.undo();
                proof {
                    lemma_play_undo_restores(bm, m, defender, rule);
                    assert(view.saved_sides() =~= v0.saved_sides());
                }
            }
            i = i + 1;
        }
        counter_wins
    }

    /// The defender's unseen threat moves that make a four, then those that
    /// make a real open three, leaving out moves that win outright.
    #[verifier::rlimit(50)]
    fn collect_counter_forcing_defenses(&self, view: &mut ThreatBoardView, attacker: Side, seen: &[bool; 225]) -> (moves_out:
        Vec<Move>)
        requires
            old(view).wf(),
            valid_side(attacker),
        ensures
            view_restored(*old(view), *final(view)),
            ({
                let bm = old(view).board@;
                let rule = old(view).rule();
                let def = -attacker as i8;
                let tm = threat_moves_spec(bm, def, rule);
                moves_out@ == filter_moves(
                    tm,
                    |m: Move| counter_forcing(bm, rule, def, seen@, m, 0),
                    tm.len() as int,
                ) + filter_moves(
                    tm,
                    |m: Move| counter_forcing(bm, rule, def, seen@, m, 1),
                    tm.len() as int,
                )
            }),
            forall|i: int| 0 <= i < moves_out@.len() ==> #[trigger] moves_out@[i] < BOARD_AREA,
    {
        let defender: Side = -attacker;
        let ghost v0 = *view;
        let ghost bm = view.board@;
        let ghost rule = view.rule();
        let ghost keep_b4 = |m: Move| counter_forcing(bm, rule, defender, seen@, m, 0);
        let ghost keep_a3 = |m: Move| counter_forcing(bm, rule, defender, seen@, m, 1);
        let moves = view.threat_moves(defender);
        let mut counter_b4: Vec<Move> = Vec::new();
        let mut counter_a3: Vec<Move> = Vec::new();
        let mut i: usize = 0;
        while i < moves.len()
            invariant
                view_restored(v0, *view),
                bm == v0.board@,
                rule == v0.rule(),
                valid_side(defender),
                keep_b4 == (|m: Move| counter_forcing(bm, rule, defender, seen@, m, 0)),
                keep_a3 == (|m: Move| counter_forcing(bm, rule, defender, seen@, m, 1)),
                i <= moves@.len(),
                moves@ == threat_moves_spec(bm, defender, rule),
                forall|j: int|
                    0 <= j < moves@.len() ==> rule_legal(bm, #[trigger] moves@[j], defender, rule),
                counter_b4@ == filter_moves(moves@, keep_b4, i as int),
                counter_a3@ == filter_moves(moves@, keep_a3, i as int),
                forall|j: int| 0 <= j < counter_b4@.len() ==> #[trigger] counter_b4@[j] < BOARD_AREA,
                forall|j: int| 0 <= j < counter_a3@.len() ==> #[trigger] counter_a3@[j] < BOARD_AREA,
            decreases moves@.len() - i,
        {
            let m = moves[i];
            proof {
                assert(rule_legal(bm, moves@[i as int], defender, rule));
                lemma_rule_legal_is_legal(bm, m, defender, rule);
            }
            if !seen[m as usize] && view.is_rule_legal(m, defender) {
                view.play(m, defender);
                let dx = (m % 15) as usize;
                let dy = (m / 15) as usize;
                if view.board.winner() != defender && !view.has_winning_a4(dx, dy) {
                    let b4 = view.b4_count(dx, dy);
                    if b4 >= 1 {
                        counter_b4.push(m);
                    } else if view.a3r_count(dx, dy) >= 1 {
                        counter_a3.push(m);
                    }
                }
                view.undo();
                proof {
                    lemma_play_undo_restores(bm, m, defender, rule);
                    assert(view.saved_sides() =~= v0.saved_sides());
                }
            }
            i = i + 1;
        }
        let ghost (b, t) = (counter_b4@, counter_a3@);
        counter_b4.append(&mut counter_a3);
        assert forall|j: int| 0 <= j < counter_b4@.len() implies #[trigger] counter_b4@[j] < BOARD_AREA by {
            if j < b.len() {
                assert(counter_b4@[j] == b[j]);
            } else {
                assert(counter_b4@[j] == t[j - b.len()]);
            }
        }
        counter_b4
    }
}

} // verus!
