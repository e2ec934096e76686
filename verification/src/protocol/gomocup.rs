//! The Gomocup protocol: commands read line by line, the position and the
//! settings they change, and the replies.
//!
//! The engine's own search and the time settings (milliseconds, read as
//! floating-point numbers) are handled by the caller: a line that asks for a
//! move answers `ProtocolReply::Search`, and the caller then reports the
//! searched move with `finish_search`; a time setting is handed back as
//! `ProtocolReply::Time` with its value text.
use vstd::prelude::*;
use vstd::string::StringExecFns;

use crate::board::{Board, BoardModel};
use crate::config::{
    apply_engine_profile, default_engine_settings, with_profile, EngineProfile, EngineSettings,
    RuntimeOptions,
};
use crate::constants::{BLACK, BOARD_AREA, BOARD_SIZE, EMPTY};
use crate::protocol::tokens::{
    comma, comma_fields, copy_chars, fields, first_index_of, parse_integer, parse_one_i32, parse_one_i64,
    parse_one_u32, parse_one_usize, split_once_comma, split_words, trim_chars, trimmed, views,
    words,
};
use crate::rules::{classify_spec, ForbiddenKind, RuleSet};
use crate::search::tt::MAX_TT_BUCKET_BITS;
use crate::text::{
    chars_of, eq_ignore_case, equal_ignoring_case, is_lower_word, is_upper_word, matches_lower,
    matches_upper,
};
use crate::types::{Move, Side};
use crate::zobrist::DEFAULT_SEED;

verus! {

pub const ABOUT_TEXT: &'static str = "name=\"rust_gomoku\", version=\"0.1\", author=\"OpenAI\", country=\"China\", www=\"https://example.invalid/\"";

/// A time setting of the `INFO` command.
#[derive(Clone, Copy, Debug, PartialEq, Eq, Structural)]
pub enum TimeSetting {
    TimeoutTurn,
    TimeoutMatch,
    TimeLeft,
}

/// What a protocol line asks of the caller.
#[derive(Clone, Debug, PartialEq, Eq)]
pub enum ProtocolReply {
    /// Send these lines.
    Lines(Vec<String>),
    /// Search a move for the side to move, then call `finish_search`.
    Search,
    /// Set a time limit from this value text.
    Time(TimeSetting, Vec<char>),
}

pub struct GomocupProtocol {
    pub config: EngineSettings,
    pub board: Board,
    pub board_mode: bool,
    pub board_lines: Vec<(usize, usize, i32)>,
    pub node_limit: Option<usize>,
    pub tt_bits: Option<u32>,
    pub ended: bool,
    pub pending_error: Option<String>,
    /// The engine state must be built afresh before the next search.
    pub engine_reset: bool,
}

// ---------------------------------------------------------------------------
// The model of replies and state changes.
// ---------------------------------------------------------------------------

pub open spec fn texts(v: Seq<String>) -> Seq<Seq<char>> {
    v.map_values(|s: String| s@)
}

pub open spec fn opt_text(o: Option<String>) -> Option<Seq<char>> {
    match o {
        Some(s) => Some(s@),
        None => None,
    }
}

/// The reply sends exactly the lines `t`.
pub open spec fn lines_are(r: ProtocolReply, t: Seq<Seq<char>>) -> bool {
    match r {
        ProtocolReply::Lines(v) => texts(v@) == t,
        _ => false,
    }
}

/// `post` equals `pre` in every field but the board, whose model is `bm`.
pub open spec fn same_but_board(pre: GomocupProtocol, post: GomocupProtocol, bm: BoardModel) -> bool {
    &&& post.config == pre.config
    &&& post.board@ == bm
    &&& post.board_mode == pre.board_mode
    &&& post.board_lines@ == pre.board_lines@
    &&& post.node_limit == pre.node_limit
    &&& post.tt_bits == pre.tt_bits
    &&& post.ended == pre.ended
    &&& opt_text(post.pending_error) == opt_text(pre.pending_error)
    &&& post.engine_reset == pre.engine_reset
}

pub open spec fn unchanged(pre: GomocupProtocol, post: GomocupProtocol) -> bool {
    same_but_board(pre, post, pre.board@)
}

/// A board model as `Board::new` makes it.
pub open spec fn fresh_board(bm: BoardModel) -> bool {
    &&& bm.cells == Seq::new(BOARD_AREA as nat, |i: int| EMPTY)
    &&& bm.history.len() == 0
    &&& bm.side_to_move == BLACK
    &&& bm.winner == EMPTY
    &&& bm.key == 0
    &&& bm.table.built_from(DEFAULT_SEED)
}

/// The engine was reset: a new board, no board lines, no pending error.
pub open spec fn engine_was_reset(pre: GomocupProtocol, post: GomocupProtocol) -> bool {
    &&& post.config == pre.config
    &&& fresh_board(post.board@)
    &&& !post.board_mode
    &&& post.board_lines@.len() == 0
    &&& post.node_limit == pre.node_limit
    &&& post.tt_bits == pre.tt_bits
    &&& post.ended == pre.ended
    &&& post.pending_error.is_none()
    &&& post.engine_reset
}

/// `side` may play `m` on `bm` under `rule`.
pub open spec fn playable(bm: BoardModel, m: Move, side: Side, rule: RuleSet) -> bool {
    bm.legal(m) && classify_spec(bm.cells, m, side, rule) == Ok::<
        ForbiddenKind,
        crate::board::BoardError,
    >(ForbiddenKind::NotForbidden)
}

/// The side to move plays the point `(x, y)`, if it may.
pub open spec fn play_point(bm: BoardModel, x: int, y: int, rule: RuleSet) -> Option<BoardModel> {
    let m = (y * 15 + x) as Move;
    if 0 <= x < 15 && 0 <= y < 15 && playable(bm, m, bm.side_to_move, rule) {
        Some(bm.after_play(m, bm.side_to_move, rule))
    } else {
        None
    }
}

pub open spec fn in_bounds(x: int, y: int) -> bool {
    0 <= x < 15 && 0 <= y < 15
}

pub open spec fn i32_of(s: Seq<char>) -> Option<int> {
    parse_integer(trimmed(s), true, i32::MIN as int, i32::MAX as int)
}

/// The reply to a request for a move, with the board at `bm`: a pending error
/// first, then a full board, then a finished game; otherwise a search.
pub open spec fn search_step(pre: GomocupProtocol, bm: BoardModel, post: GomocupProtocol, r: ProtocolReply) -> bool {
    match opt_text(pre.pending_error) {
        Some(message) => {
            &&& post.config == pre.config
            &&& post.board@ == bm
            &&& post.board_mode == pre.board_mode
            &&& post.board_lines@ == pre.board_lines@
            &&& post.node_limit == pre.node_limit
            &&& post.tt_bits == pre.tt_bits
            &&& post.ended == pre.ended
            &&& post.pending_error.is_none()
            &&& post.engine_reset == pre.engine_reset
            &&& lines_are(r, seq!["ERROR "@ + message + "."@])
        },
        None => {
            &&& same_but_board(pre, post, bm)
            &&& if bm.winner == EMPTY && (forall|k: int| 0 <= k < BOARD_AREA ==> #[trigger] bm.cells[k] != EMPTY) {
                lines_are(r, seq!["ERROR Board is full."@])
            } else if bm.winner != EMPTY {
                lines_are(r, seq!["ERROR Board is terminal."@])
            } else {
                r == ProtocolReply::Search
            }
        },
    }
}

/// `START size`.
pub open spec fn start_step(pre: GomocupProtocol, ws: Seq<Seq<char>>, post: GomocupProtocol, r: ProtocolReply) -> bool {
    let ok = ws.len() == 2 && parse_integer(trimmed(ws[1]), false, 0, usize::MAX as int) == Some(15int);
    if ok {
        engine_was_reset(pre, post) && lines_are(r, seq!["OK"@])
    } else {
        unchanged(pre, post) && lines_are(r, seq!["ERROR Size error."@])
    }
}

/// `RECTSTART width,height`.
pub open spec fn rectstart_step(pre: GomocupProtocol, ws: Seq<Seq<char>>, post: GomocupProtocol, r: ProtocolReply) -> bool {
    let ok = ws.len() == 2 && ({
        let d = ws[1];
        let k = first_index_of(d, ',');
        &&& k < d.len()
        &&& parse_integer(trimmed(d.take(k)), false, 0, usize::MAX as int) == Some(15int)
        &&& parse_integer(trimmed(d.skip(k + 1)), false, 0, usize::MAX as int) == Some(15int)
    });
    if ok {
        engine_was_reset(pre, post) && lines_are(r, seq!["OK"@])
    } else {
        unchanged(pre, post) && lines_are(r, seq!["ERROR Size error."@])
    }
}

/// The point named by `x,y` in the single argument of a command, if any.
pub open spec fn point_argument(ws: Seq<Seq<char>>) -> Option<(int, int)> {
    if ws.len() != 2 {
        None
    } else {
        let d = ws[1];
        let k = first_index_of(d, ',');
        if k >= d.len() {
            None
        } else {
            match (i32_of(d.take(k)), i32_of(d.skip(k + 1))) {
                (Some(x), Some(y)) => if in_bounds(x, y) {
                    Some((x, y))
                } else {
                    None
                },
                _ => None,
            }
        }
    }
}

/// `TURN x,y`: the side to move plays the point, then a move is searched.
pub open spec fn turn_step(pre: GomocupProtocol, ws: Seq<Seq<char>>, post: GomocupProtocol, r: ProtocolReply) -> bool {
    match point_argument(ws) {
        None => unchanged(pre, post) && lines_are(r, seq!["ERROR Turn format error."@]),
        Some(p) => match play_point(pre.board@, p.0, p.1, pre.config.rule_set) {
            None => unchanged(pre, post) && lines_are(r, seq!["ERROR Illegal move."@]),
            Some(bm) => search_step(pre, bm, post, r),
        },
    }
}

/// `TAKEBACK`: alone it takes back the last move, if any; with `x,y` it takes
/// back the last move if it was played on that point.
pub open spec fn takeback_step(pre: GomocupProtocol, ws: Seq<Seq<char>>, post: GomocupProtocol, r: ProtocolReply) -> bool {
    let h = pre.board@.history;
    if ws.len() == 1 {
        lines_are(r, seq!["OK"@]) && if h.len() > 0 {
            same_but_board(pre, post, pre.board@.after_undo())
        } else {
            unchanged(pre, post)
        }
    } else {
        match point_argument(ws) {
            Some(p) => if h.len() > 0 && h.last().move_ == p.1 * 15 + p.0 {
                same_but_board(pre, post, pre.board@.after_undo()) && lines_are(r, seq!["OK"@])
            } else {
                unchanged(pre, post) && lines_are(r, seq!["ERROR Takeback error."@])
            },
            None => unchanged(pre, post) && lines_are(r, seq!["ERROR Takeback error."@]),
        }
    }
}

/// The keys whose value is an integer setting of the runtime options.
pub open spec fn is_int_key(key: Seq<char>) -> bool {
    ||| matches_lower(key, "compute_vcf"@)
    ||| matches_lower(key, "root_vcf_depth"@)
    ||| matches_lower(key, "opponent_vcf_depth"@)
    ||| matches_lower(key, "vct_verify_opponent_vcf_depth"@)
    ||| matches_lower(key, "vcf_multi_reply"@)
    ||| matches_lower(key, "nonroot_vcf"@)
    ||| matches_lower(key, "compute_vct"@)
    ||| matches_lower(key, "root_vct_depth"@)
    ||| matches_lower(key, "vct_strict_and_memo_key"@)
    ||| matches_lower(key, "overlap_vct_alphabeta"@)
    ||| matches_lower(key, "fast_history_ordering"@)
    ||| matches_lower(key, "root_profile"@)
    ||| matches_lower(key, "static"@)
    ||| matches_lower(key, "dynamic_board_margin"@)
}

/// The runtime options after an `INFO` key with the integer value `v`: a
/// switch is on for a nonzero value, a depth or margin is `v` or at least 0,
/// and `static` is on for an odd value.
pub open spec fn runtime_after_int(rt: RuntimeOptions, key: Seq<char>, v: int) -> RuntimeOptions {
    let flag = v != 0;
    let depth = if v > 0 {
        v as i32
    } else {
        0i32
    };
    if matches_lower(key, "compute_vcf"@) {
        RuntimeOptions { compute_vcf: flag, ..rt }
    } else if matches_lower(key, "root_vcf_depth"@) {
        RuntimeOptions { root_vcf_depth: depth, ..rt }
    } else if matches_lower(key, "opponent_vcf_depth"@) {
        RuntimeOptions { opponent_vcf_depth: depth, ..rt }
    } else if matches_lower(key, "vct_verify_opponent_vcf_depth"@) {
        RuntimeOptions { vct_verify_opponent_vcf_depth: depth, ..rt }
    } else if matches_lower(key, "vcf_multi_reply"@) {
        RuntimeOptions { vcf_multi_reply: flag, ..rt }
    } else if matches_lower(key, "nonroot_vcf"@) {
        RuntimeOptions { nonroot_vcf: flag, ..rt }
    } else if matches_lower(key, "compute_vct"@) {
        RuntimeOptions { compute_vct: flag, ..rt }
    } else if matches_lower(key, "root_vct_depth"@) {
        RuntimeOptions { root_vct_depth: depth, ..rt }
    } else if matches_lower(key, "vct_strict_and_memo_key"@) {
        RuntimeOptions { vct_strict_and_memo_key: flag, ..rt }
    } else if matches_lower(key, "overlap_vct_alphabeta"@) {
        RuntimeOptions { overlap_vct_alphabeta: flag, ..rt }
    } else if matches_lower(key, "fast_history_ordering"@) {
        RuntimeOptions { fast_history_ordering: flag, ..rt }
    } else if matches_lower(key, "root_profile"@) {
        RuntimeOptions { root_profile: flag, ..rt }
    } else if matches_lower(key, "static"@) {
        RuntimeOptions { static_board: v % 2 != 0, ..rt }
    } else if matches_lower(key, "dynamic_board_margin"@) {
        RuntimeOptions { dynamic_board_margin: depth, ..rt }
    } else {
        rt
    }
}

pub open spec fn time_key(key: Seq<char>) -> Option<TimeSetting> {
    if matches_lower(key, "timeout_turn"@) {
        Some(TimeSetting::TimeoutTurn)
    } else if matches_lower(key, "timeout_match"@) {
        Some(TimeSetting::TimeoutMatch)
    } else if matches_lower(key, "time_left"@) {
        Some(TimeSetting::TimeLeft)
    } else {
        None
    }
}

/// `INFO key value`.
pub open spec fn info_step(pre: GomocupProtocol, args: Seq<Seq<char>>, post: GomocupProtocol, r: ProtocolReply) -> bool {
    if args.len() < 2 {
        unchanged(pre, post) && lines_are(r, seq![])
    } else {
        let key = args[0];
        let value = args[1];
        match time_key(key) {
            Some(t) => unchanged(pre, post) && (r matches ProtocolReply::Time(k, v) && k == t && v@ == value),
            None => lines_are(r, seq![]) && if matches_lower(key, "max_node"@) {
                match parse_integer(trimmed(value), true, i64::MIN as int, i64::MAX as int) {
                    Some(v) => {
                        &&& post.node_limit == if v > 0 {
                            Some(v as usize)
                        } else {
                            None::<usize>
                        }
                        &&& post.config == pre.config
                        &&& post.board@ == pre.board@
                        &&& post.board_mode == pre.board_mode
                        &&& post.board_lines@ == pre.board_lines@
                        &&& post.tt_bits == pre.tt_bits
                        &&& post.ended == pre.ended
                        &&& opt_text(post.pending_error) == opt_text(pre.pending_error)
                        &&& post.engine_reset == pre.engine_reset
                    },
                    None => unchanged(pre, post),
                }
            } else if is_int_key(key) {
                match i32_of(value) {
                    Some(v) => {
                        &&& post.config == EngineSettings {
                            runtime: runtime_after_int(pre.config.runtime, key, v),
                            ..pre.config
                        }
                        &&& post.board@ == pre.board@
                        &&& post.board_mode == pre.board_mode
                        &&& post.board_lines@ == pre.board_lines@
                        &&& post.node_limit == pre.node_limit
                        &&& post.tt_bits == pre.tt_bits
                        &&& post.ended == pre.ended
                        &&& opt_text(post.pending_error) == opt_text(pre.pending_error)
                        &&& post.engine_reset == (pre.engine_reset || !matches_lower(key, "root_profile"@))
                    },
                    None => unchanged(pre, post),
                }
            } else if matches_lower(key, "tt_bits"@) {
                match parse_integer(trimmed(value), false, 0, u32::MAX as int) {
                    Some(v) => if v <= MAX_TT_BUCKET_BITS {
                        &&& post.tt_bits == Some(v as u32)
                        &&& post.engine_reset
                        &&& post.config == pre.config
                        &&& post.board@ == pre.board@
                        &&& post.board_mode == pre.board_mode
                        &&& post.board_lines@ == pre.board_lines@
                        &&& post.node_limit == pre.node_limit
                        &&& post.ended == pre.ended
                        &&& opt_text(post.pending_error) == opt_text(pre.pending_error)
                    } else {
                        &&& opt_text(post.pending_error) == Some("tt_bits must be between 0 and 31"@)
                        &&& post.config == pre.config
                        &&& post.board@ == pre.board@
                        &&& post.board_mode == pre.board_mode
                        &&& post.board_lines@ == pre.board_lines@
                        &&& post.node_limit == pre.node_limit
                        &&& post.tt_bits == pre.tt_bits
                        &&& post.ended == pre.ended
                        &&& post.engine_reset == pre.engine_reset
                    },
                    None => unchanged(pre, post),
                }
            } else if matches_lower(key, "profile"@) {
                match EngineProfile::named(value) {
                    Some(p) => {
                        &&& post.config == with_profile(pre.config, p)
                        &&& post.engine_reset
                        &&& post.board@ == pre.board@
                        &&& post.board_mode == pre.board_mode
                        &&& post.board_lines@ == pre.board_lines@
                        &&& post.node_limit == pre.node_limit
                        &&& post.tt_bits == pre.tt_bits
                        &&& post.ended == pre.ended
                        &&& opt_text(post.pending_error) == opt_text(pre.pending_error)
                    },
                    None => unchanged(pre, post),
                }
            } else if matches_lower(key, "rule"@) {
                match RuleSet::named(value) {
                    Some(rule) => if pre.board@.history.len() == 0 && rule != pre.config.rule_set {
                        &&& post.config == EngineSettings { rule_set: rule, ..pre.config }
                        &&& post.engine_reset
                        &&& post.board@ == pre.board@
                        &&& post.board_mode == pre.board_mode
                        &&& post.board_lines@ == pre.board_lines@
                        &&& post.node_limit == pre.node_limit
                        &&& post.tt_bits == pre.tt_bits
                        &&& post.ended == pre.ended
                        &&& opt_text(post.pending_error) == opt_text(pre.pending_error)
                    } else {
                        unchanged(pre, post)
                    },
                    None => unchanged(pre, post),
                }
            } else {
                unchanged(pre, post)
            },
        }
    }
}

/// The board points of the board lines whose colour is (or is not) Black,
/// in order.
pub open spec fn colour_points(lines: Seq<(usize, usize, i32)>, black: bool) -> Seq<(usize, usize)>
    decreases lines.len(),
{
    if lines.len() == 0 {
        Seq::empty()
    } else {
        let rest = colour_points(lines.drop_last(), black);
        let l = lines.last();
        if (l.2 == 1) == black {
            rest.push((l.0, l.1))
        } else {
            rest
        }
    }
}

/// Plays `first[idx]` then `second[idx]` for each `idx` from `idx` on, each
/// by the side to move; `None` as soon as one cannot be played.
pub open spec fn setup_from(
    bm: BoardModel,
    first: Seq<(usize, usize)>,
    second: Seq<(usize, usize)>,
    idx: int,
    rule: RuleSet,
) -> Option<BoardModel>
    decreases (if first.len() > second.len() {
        first.len()
    } else {
        second.len()
    }) - idx,
{
    let n = if first.len() > second.len() {
        first.len() as int
    } else {
        second.len() as int
    };
    if idx >= n || idx < 0 {
        Some(bm)
    } else {
        let a = if idx < first.len() {
            play_point(bm, first[idx].0 as int, first[idx].1 as int, rule)
        } else {
            Some(bm)
        };
        match a {
            None => None,
            Some(b1) => {
                let b = if idx < second.len() {
                    play_point(b1, second[idx].0 as int, second[idx].1 as int, rule)
                } else {
                    Some(b1)
                };
                match b {
                    None => None,
                    Some(b2) => setup_from(b2, first, second, idx + 1, rule),
                }
            },
        }
    }
}

/// `DONE` after the board lines: the position is set up with the side that
/// has as many stones as the other (or one more) moving first, and a move is
/// searched.
pub open spec fn board_done_step(pre: GomocupProtocol, post: GomocupProtocol, r: ProtocolReply) -> bool {
    let black = colour_points(pre.board_lines@, true);
    let white = colour_points(pre.board_lines@, false);
    let counts_ok = black.len() == white.len() || black.len() + 1 == white.len();
    let (first, second) = if black.len() == white.len() {
        (black, white)
    } else {
        (white, black)
    };
    if !counts_ok {
        &&& post.config == pre.config
        &&& post.board@ == pre.board@
        &&& !post.board_mode
        &&& post.board_lines@.len() == 0
        &&& post.node_limit == pre.node_limit
        &&& post.tt_bits == pre.tt_bits
        &&& post.ended == pre.ended
        &&& opt_text(post.pending_error) == opt_text(pre.pending_error)
        &&& post.engine_reset == pre.engine_reset
        &&& lines_are(r, seq!["ERROR Board error."@])
    } else {
        let start = BoardModel {
            cells: Seq::new(BOARD_AREA as nat, |i: int| EMPTY),
            history: Seq::empty(),
            side_to_move: BLACK,
            winner: EMPTY,
            key: 0,
            table: post.board@.table,
        };
        let cleared = GomocupProtocol { board_mode: false, board_lines: post.board_lines, ..pre };
        &&& post.board@.table.built_from(DEFAULT_SEED)
        &&& post.board_lines@.len() == 0
        &&& match setup_from(start, first, second, 0, pre.config.rule_set) {
            None => {
                &&& post.board@ == start
                &&& post.config == pre.config
                &&& !post.board_mode
                &&& post.node_limit == pre.node_limit
                &&& post.tt_bits == pre.tt_bits
                &&& post.ended == pre.ended
                &&& opt_text(post.pending_error) == opt_text(pre.pending_error)
                &&& post.engine_reset == pre.engine_reset
                &&& lines_are(r, seq!["ERROR Board error."@])
            },
            Some(bm) => search_step(cleared, bm, post, r),
        }
    }
}

/// A line while the board lines are read: `DONE`, or `x,y,colour`.
pub open spec fn board_line_step(pre: GomocupProtocol, raw: Seq<char>, post: GomocupProtocol, r: ProtocolReply) -> bool {
    if equal_ignoring_case(raw, "DONE"@) {
        board_done_step(pre, post, r)
    } else {
        let f = fields(raw, |c: char| comma(c));
        let parsed = if f.len() == 3 {
            match (i32_of(f[0]), i32_of(f[1]), i32_of(f[2])) {
                (Some(x), Some(y), Some(c)) => if in_bounds(x, y) {
                    Some((x, y, c))
                } else {
                    None
                },
                _ => None,
            }
        } else {
            None
        };
        match parsed {
            None => unchanged(pre, post) && lines_are(r, seq!["ERROR Board format error."@]),
            Some(t) => {
                &&& post.board_lines@ == pre.board_lines@.push((t.0 as usize, t.1 as usize, t.2 as i32))
                &&& post.config == pre.config
                &&& post.board@ == pre.board@
                &&& post.board_mode == pre.board_mode
                &&& post.node_limit == pre.node_limit
                &&& post.tt_bits == pre.tt_bits
                &&& post.ended == pre.ended
                &&& opt_text(post.pending_error) == opt_text(pre.pending_error)
                &&& post.engine_reset == pre.engine_reset
                &&& lines_are(r, seq![])
            },
        }
    }
}

/// What a line does.
pub open spec fn line_step(pre: GomocupProtocol, line: Seq<char>, post: GomocupProtocol, r: ProtocolReply) -> bool {
    let raw = trimmed(line);
    if raw.len() == 0 {
        unchanged(pre, post) && lines_are(r, seq![])
    } else if pre.board_mode {
        board_line_step(pre, raw, post, r)
    } else {
        let ws = words(raw);
        let cmd = ws[0];
        if matches_upper(cmd, "START"@) {
            start_step(pre, ws, post, r)
        } else if matches_upper(cmd, "RECTSTART"@) {
            rectstart_step(pre, ws, post, r)
        } else if matches_upper(cmd, "RESTART"@) {
            engine_was_reset(pre, post) && lines_are(r, seq!["OK"@])
        } else if matches_upper(cmd, "BEGIN"@) {
            search_step(pre, pre.board@, post, r)
        } else if matches_upper(cmd, "TURN"@) {
            turn_step(pre, ws, post, r)
        } else if matches_upper(cmd, "BOARD"@) {
            &&& post.board_mode
            &&& post.board_lines@.len() == 0
            &&& post.config == pre.config
            &&& post.board@ == pre.board@
            &&& post.node_limit == pre.node_limit
            &&& post.tt_bits == pre.tt_bits
            &&& post.ended == pre.ended
            &&& opt_text(post.pending_error) == opt_text(pre.pending_error)
            &&& post.engine_reset == pre.engine_reset
            &&& lines_are(r, seq![])
        } else if matches_upper(cmd, "INFO"@) {
            info_step(pre, ws.skip(1), post, r)
        } else if matches_upper(cmd, "TAKEBACK"@) {
            takeback_step(pre, ws, post, r)
        } else if matches_upper(cmd, "ABOUT"@) {
            unchanged(pre, post) && lines_are(r, seq![ABOUT_TEXT@])
        } else if matches_upper(cmd, "END"@) {
            &&& post.ended
            &&& post.config == pre.config
            &&& post.board@ == pre.board@
            &&& post.board_mode == pre.board_mode
            &&& post.board_lines@ == pre.board_lines@
            &&& post.node_limit == pre.node_limit
            &&& post.tt_bits == pre.tt_bits
            &&& opt_text(post.pending_error) == opt_text(pre.pending_error)
            &&& post.engine_reset == pre.engine_reset
            &&& lines_are(r, seq![])
        } else {
            unchanged(pre, post) && lines_are(r, seq![])
        }
    }
}

// ---------------------------------------------------------------------------
// Replies.
// ---------------------------------------------------------------------------

fn reply_line(text: &str) -> (r: ProtocolReply)
    ensures
        lines_are(r, seq![text@]),
{
    let mut v: Vec<String> = Vec::new();
    v.push(String::from_str(text));
    assert(texts(v@) =~= seq![text@]);
    ProtocolReply::Lines(v)
}

fn no_lines() -> (r: ProtocolReply)
    ensures
        lines_are(r, seq![]),
{
    let v: Vec<String> = Vec::new();
    assert(texts(v@) =~= Seq::<Seq<char>>::empty());
    ProtocolReply::Lines(v)
}

/// The coordinate `n` of the board in decimal.
fn coordinate_text(n: usize) -> (t: &'static str)
    requires
        n < 15,
    ensures
        t@ == coordinate_spec(n as int),
{
    match n {
        0 => "0",
        1 => "1",
        2 => "2",
        3 => "3",
        4 => "4",
        5 => "5",
        6 => "6",
        7 => "7",
        8 => "8",
        9 => "9",
        10 => "10",
        11 => "11",
        12 => "12",
        13 => "13",
        _ => "14",
    }
}

/// The decimal text of a board coordinate.
pub open spec fn coordinate_spec(n: int) -> Seq<char> {
    if n == 0 {
        "0"@
    } else if n == 1 {
        "1"@
    } else if n == 2 {
        "2"@
    } else if n == 3 {
        "3"@
    } else if n == 4 {
        "4"@
    } else if n == 5 {
        "5"@
    } else if n == 6 {
        "6"@
    } else if n == 7 {
        "7"@
    } else if n == 8 {
        "8"@
    } else if n == 9 {
        "9"@
    } else if n == 10 {
        "10"@
    } else if n == 11 {
        "11"@
    } else if n == 12 {
        "12"@
    } else if n == 13 {
        "13"@
    } else {
        "14"@
    }
}

/// The first point `side` may play on `bm`, scanning moves from `k` up.
pub open spec fn first_playable_from(bm: BoardModel, side: Side, rule: RuleSet, k: int) -> Option<Move>
    decreases BOARD_AREA - k,
{
    if k >= BOARD_AREA || k < 0 {
        None
    } else if playable(bm, k as Move, side, rule) {
        Some(k as Move)
    } else {
        first_playable_from(bm, side, rule, k + 1)
    }
}

/// The move actually played for a searched move: the move itself if the
/// side to move may play it, else the first point it may play.
pub open spec fn chosen_move(bm: BoardModel, searched: Move, rule: RuleSet) -> Option<Move> {
    if playable(bm, searched, bm.side_to_move, rule) {
        Some(searched)
    } else {
        first_playable_from(bm, bm.side_to_move, rule, 0)
    }
}

proof fn lemma_first_playable_in_range(bm: BoardModel, side: Side, rule: RuleSet, k: int)
    ensures
        first_playable_from(bm, side, rule, k) matches Some(m) ==> m < BOARD_AREA && playable(bm, m, side, rule),
    decreases BOARD_AREA - k,
{
    if 0 <= k < BOARD_AREA && !playable(bm, k as Move, side, rule) {
        lemma_first_playable_in_range(bm, side, rule, k + 1);
    }
}

impl GomocupProtocol {
    /// The first point `side` may play, scanning the moves in order.
    fn first_playable(&self, side: Side, rule: RuleSet) -> (r: Option<Move>)
        requires
            self.wf(),
        ensures
            r == first_playable_from(self.board@, side, rule, 0),
    {
        let mut candidate: u16 = 0;
        while candidate < BOARD_AREA as u16
            invariant
                self.wf(),
                candidate <= BOARD_AREA,
                first_playable_from(self.board@, side, rule, 0) == first_playable_from(
                    self.board@,
                    side,
                    rule,
                    candidate as int,
                ),
            decreases BOARD_AREA - candidate,
        {
            if self.board.is_legal_move_for_rule(candidate, side, rule) {
                return Some(candidate);
            }
            candidate = candidate + 1;
        }
        None
    }

    pub open spec fn wf(&self) -> bool {
        self.board.wf()
    }

    /// A protocol on an empty board with the given settings, or the defaults.
    pub fn new(config: Option<EngineSettings>) -> (p: Self)
        ensures
            p.wf(),
            fresh_board(p.board@),
            p.config == match config {
                Some(c) => c,
                None => crate::config::default_settings_spec(),
            },
            !p.board_mode,
            p.board_lines@.len() == 0,
            p.node_limit.is_none(),
            p.tt_bits.is_none(),
            !p.ended,
            p.pending_error.is_none(),
            p.engine_reset,
    {
        let settings = match config {
            Some(c) => c,
            None => default_engine_settings(),
        };
        GomocupProtocol {
            config: settings,
            board: Board::new(),
            board_mode: false,
            board_lines: Vec::new(),
            node_limit: None,
            tt_bits: None,
            ended: false,
            pending_error: None,
            engine_reset: true,
        }
    }

    /// Records an error to report at the next request for a move.
    pub fn set_pending_error(&mut self, message: &str)
        ensures
            opt_text(final(self).pending_error) == Some(message@),
            same_but_board(
                GomocupProtocol { pending_error: final(self).pending_error, ..*old(self) },
                *final(self),
                old(self).board@,
            ),
    {
        self.pending_error = Some(String::from_str(message));
    }

    fn reset_engine(&mut self)
        ensures
            engine_was_reset(*old(self), *final(self)),
            final(self).wf(),
    {
        self.board = Board::new();
        self.engine_reset = true;
        self.board_mode = false;
        self.board_lines.clear();
        self.pending_error = None;
    }

    /// The side to move plays `(x, y)` if it may.
    fn play_xy(&mut self, x: usize, y: usize) -> (ok: bool)
        requires
            old(self).wf(),
            x < BOARD_SIZE,
            y < BOARD_SIZE,
        ensures
            final(self).wf(),
            ok == play_point(old(self).board@, x as int, y as int, old(self).config.rule_set).is_some(),
            same_but_board(
                *old(self),
                *final(self),
                match play_point(old(self).board@, x as int, y as int, old(self).config.rule_set) {
                    Some(bm) => bm,
                    None => old(self).board@,
                },
            ),
    {
        let m = (y * BOARD_SIZE + x) as Move;
        let side = self.board.side_to_move();
        if !self.board.is_legal_move_for_rule(m, side, self.config.rule_set) {
            return false;
        }
        let _ = self.board.force_side_to_move(side);
        assert(self.board@ == old(self).board@);
        let played = self.board.play_for_rule(m, Some(side), self.config.rule_set);
        played.is_ok()
    }

    /// The checks before a search: a pending error, a full board, a finished
    /// game; otherwise `Search`.
    fn search_move(&mut self) -> (r: ProtocolReply)
        requires
            old(self).wf(),
        ensures
            final(self).wf(),
            search_step(*old(self), old(self).board@, *final(self), r),
    {
        if self.pending_error.is_some() {
            let text = match &self.pending_error {
                Some(m) => m.clone(),
                None => String::new(),
            };
            self.pending_error = None;
            let message = String::from_str("ERROR ").concat(text.as_str()).concat(".");
            let mut v: Vec<String> = Vec::new();
            v.push(message);
            proof {
                let m = old(self).pending_error.unwrap();
                assert(text@ == m@);
                assert(opt_text(old(self).pending_error) == Some(m@));
                assert(texts(v@) =~= seq!["ERROR "@ + m@ + "."@]);
            }
            return ProtocolReply::Lines(v);
        }
        if self.board.is_draw() {
            return reply_line("ERROR Board is full.");
        }
        if self.board.winner() != EMPTY {
            return reply_line("ERROR Board is terminal.");
        }
        ProtocolReply::Search
    }

    /// Plays the move the search found: the searched move if the side to
    /// move may play it, else the first point it may play; replies with the
    /// point played as `x,y`, or an error when no point can be played.
    #[verifier::rlimit(60)]
    pub fn finish_search(&mut self, searched: Move) -> (lines: Vec<String>)
        requires
            old(self).wf(),
        ensures
            final(self).wf(),
            match chosen_move(old(self).board@, searched, old(self).config.rule_set) {
                None => unchanged(*old(self), *final(self)) && texts(lines@) == seq!["ERROR No legal move."@],
                Some(m) => {
                    &&& same_but_board(
                        *old(self),
                        *final(self),
                        old(self).board@.after_play(m, old(self).board@.side_to_move, old(self).config.rule_set),
                    )
                    &&& texts(lines@) == seq![
                        coordinate_spec(m as int % 15) + ","@ + coordinate_spec(m as int / 15),
                    ]
                },
            },
    {
        let side = self.board.side_to_move();
        let rule = self.config.rule_set;
        let chosen: Option<Move> = if self.board.is_legal_move_for_rule(searched, side, rule) {
            Some(searched)
        } else {
            self.first_playable(side, rule)
        };
        proof {
            if chosen.is_some() {
                lemma_first_playable_in_range(self.board@, side, rule, 0);
            }
        }
        let m = match chosen {
            Some(m) => m,
            None => {
                let mut v: Vec<String> = Vec::new();
                v.push(String::from_str("ERROR No legal move."));
                assert(texts(v@) =~= seq!["ERROR No legal move."@]);
                return v;
            },
        };
        let x = (m as usize) % BOARD_SIZE;
        let y = (m as usize) / BOARD_SIZE;
        let ok = self.play_xy(x, y);
        assert(ok);
        let text = String::from_str(coordinate_text(x)).concat(",").concat(coordinate_text(y));
        let mut v: Vec<String> = Vec::new();
        v.push(text);
        assert(texts(v@) =~= seq![coordinate_spec(m as int % 15) + ","@ + coordinate_spec(m as int / 15)]);
        v
    }
}

/// The point named by the single `x,y` argument of a command, if any.
fn point_of(ws: &Vec<Vec<char>>) -> (r: Option<(usize, usize)>)
    ensures
        match point_argument(views(ws@)) {
            Some(p) => r == Some((p.0 as usize, p.1 as usize)) && in_bounds(p.0, p.1),
            None => r.is_none(),
        },
{
    if ws.len() != 2 {
        return None;
    }
    let ghost d = ws@[1]@;
    assert(views(ws@)[1] == d);
    match split_once_comma(&ws[1]) {
        None => None,
        Some(parts) => {
            let x = parse_one_i32(&parts.0);
            let y = parse_one_i32(&parts.1);
            match (x, y) {
                (Some(x), Some(y)) => {
                    if x >= 0 && y >= 0 && x < 15 && y < 15 {
                        Some((x as usize, y as usize))
                    } else {
                        None
                    }
                },
                _ => None,
            }
        },
    }
}

/// Whether `key` names an integer runtime setting.
fn int_key(key: &Vec<char>) -> (b: bool)
    ensures
        b == is_int_key(key@),
{
    is_lower_word(key, "compute_vcf") || is_lower_word(key, "root_vcf_depth") || is_lower_word(
        key,
        "opponent_vcf_depth",
    ) || is_lower_word(key, "vct_verify_opponent_vcf_depth") || is_lower_word(key, "vcf_multi_reply")
        || is_lower_word(key, "nonroot_vcf") || is_lower_word(key, "compute_vct") || is_lower_word(
        key,
        "root_vct_depth",
    ) || is_lower_word(key, "vct_strict_and_memo_key") || is_lower_word(key, "overlap_vct_alphabeta")
        || is_lower_word(key, "fast_history_ordering") || is_lower_word(key, "root_profile")
        || is_lower_word(key, "static") || is_lower_word(key, "dynamic_board_margin")
}

/// Sets the runtime option `key` from the integer `v`.
#[verifier::rlimit(100)]
#[verifier::spinoff_prover]
fn apply_int_setting(rt: &mut RuntimeOptions, key: &Vec<char>, v: i32)
    ensures
        *final(rt) == runtime_after_int(*old(rt), key@, v as int),
{
    let flag = v != 0;
    let depth: i32 = if v > 0 {
        v
    } else {
        0
    };
    if is_lower_word(key, "compute_vcf") {
        rt.compute_vcf = flag;
    } else if is_lower_word(key, "root_vcf_depth") {
        rt.root_vcf_depth = depth;
    } else if is_lower_word(key, "opponent_vcf_depth") {
        rt.opponent_vcf_depth = depth;
    } else if is_lower_word(key, "vct_verify_opponent_vcf_depth") {
        rt.vct_verify_opponent_vcf_depth = depth;
    } else if is_lower_word(key, "vcf_multi_reply") {
        rt.vcf_multi_reply = flag;
    } else if is_lower_word(key, "nonroot_vcf") {
        rt.nonroot_vcf = flag;
    } else if is_lower_word(key, "compute_vct") {
        rt.compute_vct = flag;
    } else if is_lower_word(key, "root_vct_depth") {
        rt.root_vct_depth = depth;
    } else if is_lower_word(key, "vct_strict_and_memo_key") {
        rt.vct_strict_and_memo_key = flag;
    } else if is_lower_word(key, "overlap_vct_alphabeta") {
        rt.overlap_vct_alphabeta = flag;
    } else if is_lower_word(key, "fast_history_ordering") {
        rt.fast_history_ordering = flag;
    } else if is_lower_word(key, "root_profile") {
        rt.root_profile = flag;
    } else if is_lower_word(key, "static") {
        rt.static_board = v % 2 != 0;
    } else if is_lower_word(key, "dynamic_board_margin") {
        rt.dynamic_board_margin = depth;
    }
}

/// The board lines' points of each colour.
fn split_board_lines(lines: &Vec<(usize, usize, i32)>) -> (r: (Vec<(usize, usize)>, Vec<(usize, usize)>))
    ensures
        r.0@ == colour_points(lines@, true),
        r.1@ == colour_points(lines@, false),
{
    let mut black: Vec<(usize, usize)> = Vec::new();
    let mut white: Vec<(usize, usize)> = Vec::new();
    let mut i: usize = 0;
    while i < lines.len()
        invariant
            i <= lines@.len(),
            black@ == colour_points(lines@.take(i as int), true),
            white@ == colour_points(lines@.take(i as int), false),
        decreases lines@.len() - i,
    {
        let l = lines[i];
        proof {
            assert(lines@.take(i + 1).drop_last() =~= lines@.take(i as int));
            assert(lines@.take(i + 1).last() == l);
        }
        if l.2 == 1 {
            black.push((l.0, l.1));
        } else {
            white.push((l.0, l.1));
        }
        i = i + 1;
    }
    assert(lines@.take(lines@.len() as int) =~= lines@);
    (black, white)
}

impl GomocupProtocol {
    fn handle_start(&mut self, ws: &Vec<Vec<char>>) -> (r: ProtocolReply)
        requires
            old(self).wf(),
        ensures
            final(self).wf(),
            start_step(*old(self), views(ws@), *final(self), r),
    {
        if ws.len() != 2 {
            return reply_line("ERROR Size error.");
        }
        assert(views(ws@)[1] == ws@[1]@);
        match parse_one_usize(&ws[1]) {
            Some(size) => {
                if size != BOARD_SIZE {
                    return reply_line("ERROR Size error.");
                }
                self.reset_engine();
                reply_line("OK")
            },
            None => reply_line("ERROR Size error."),
        }
    }

    fn handle_rectstart(&mut self, ws: &Vec<Vec<char>>) -> (r: ProtocolReply)
        requires
            old(self).wf(),
        ensures
            final(self).wf(),
            rectstart_step(*old(self), views(ws@), *final(self), r),
    {
        if ws.len() != 2 {
            return reply_line("ERROR Size error.");
        }
        assert(views(ws@)[1] == ws@[1]@);
        match split_once_comma(&ws[1]) {
            None => reply_line("ERROR Size error."),
            Some(parts) => {
                let sx = parse_one_usize(&parts.0);
                let sy = parse_one_usize(&parts.1);
                match (sx, sy) {
                    (Some(sx), Some(sy)) => {
                        if sx != BOARD_SIZE || sy != BOARD_SIZE {
                            return reply_line("ERROR Size error.");
                        }
                        self.reset_engine();
                        reply_line("OK")
                    },
                    _ => reply_line("ERROR Size error."),
                }
            },
        }
    }

    fn handle_turn(&mut self, ws: &Vec<Vec<char>>) -> (r: ProtocolReply)
        requires
            old(self).wf(),
        ensures
            final(self).wf(),
            turn_step(*old(self), views(ws@), *final(self), r),
    {
        match point_of(ws) {
            None => reply_line("ERROR Turn format error."),
            Some(p) => {
                let (x, y) = p;
                let m = (y * BOARD_SIZE + x) as Move;
                if !self.board.is_legal_move(m) {
                    return reply_line("ERROR Illegal move.");
                }
                if !self.play_xy(x, y) {
                    return reply_line("ERROR Illegal move.");
                }
                self.search_move()
            },
        }
    }

    fn handle_takeback(&mut self, ws: &Vec<Vec<char>>) -> (r: ProtocolReply)
        requires
            old(self).wf(),
        ensures
            final(self).wf(),
            takeback_step(*old(self), views(ws@), *final(self), r),
    {
        if ws.len() == 1 {
            if self.board.move_count() > 0 {
                let _ = self.board.undo();
            }
            return reply_line("OK");
        }
        match point_of(ws) {
            None => reply_line("ERROR Takeback error."),
            Some(p) => {
                let (x, y) = p;
                let count = self.board.move_count();
                if count == 0 {
                    return reply_line("ERROR Takeback error.");
                }
                let last = self.board.move_history()[count - 1];
                if last.move_ as usize != y * BOARD_SIZE + x {
                    return reply_line("ERROR Takeback error.");
                }
                let _ = self.board.undo();
                reply_line("OK")
            },
        }
    }

    fn handle_info(&mut self, ws: &Vec<Vec<char>>) -> (r: ProtocolReply)
        requires
            old(self).wf(),
            ws@.len() >= 1,
        ensures
            final(self).wf(),
            info_step(*old(self), views(ws@).skip(1), *final(self), r),
    {
        if ws.len() < 3 {
            return no_lines();
        }
        let key = &ws[1];
        let value = &ws[2];
        proof {
            let args = views(ws@).skip(1);
            assert(args[0] == key@);
            assert(args[1] == value@);
        }
        if is_lower_word(key, "timeout_turn") {
            return ProtocolReply::Time(TimeSetting::TimeoutTurn, copy_chars(value));
        }
        if is_lower_word(key, "timeout_match") {
            return ProtocolReply::Time(TimeSetting::TimeoutMatch, copy_chars(value));
        }
        if is_lower_word(key, "time_left") {
            return ProtocolReply::Time(TimeSetting::TimeLeft, copy_chars(value));
        }
        if is_lower_word(key, "max_node") {
            match parse_one_i64(value) {
                Some(v) => {
                    self.node_limit = if v > 0 {
                        Some(v as usize)
                    } else {
                        None
                    };
                },
                None => {},
            }
            return no_lines();
        }
        if int_key(key) {
            match parse_one_i32(value) {
                Some(v) => {
                    apply_int_setting(&mut self.config.runtime, key, v);
                    if !is_lower_word(key, "root_profile") {
                        self.engine_reset = true;
                    }
                },
                None => {},
            }
            return no_lines();
        }
        if is_lower_word(key, "tt_bits") {
            match parse_one_u32(value) {
                Some(v) => {
                    if v <= MAX_TT_BUCKET_BITS {
                        self.tt_bits = Some(v);
                        self.engine_reset = true;
                    } else {
                        self.pending_error = Some(String::from_str("tt_bits must be between 0 and 31"));
                    }
                },
                None => {},
            }
            return no_lines();
        }
        if is_lower_word(key, "profile") {
            match EngineProfile::from_chars(value) {
                Some(p) => {
                    apply_engine_profile(&mut self.config, p);
                    self.engine_reset = true;
                },
                None => {},
            }
            return no_lines();
        }
        if is_lower_word(key, "rule") {
            if self.board.move_count() == 0 {
                match RuleSet::from_chars(value) {
                    Some(rule) => {
                        if self.config.rule_set != rule {
                            self.config.rule_set = rule;
                            self.engine_reset = true;
                        }
                    },
                    None => {},
                }
            }
            return no_lines();
        }
        no_lines()
    }

    fn board_done(&mut self) -> (r: ProtocolReply)
        requires
            old(self).wf(),
            !old(self).board_mode,
        ensures
            final(self).wf(),
            board_done_step(*old(self), *final(self), r),
    {
        let (black, white) = split_board_lines(&self.board_lines);
        let bl = black.len();
        let wl = white.len();
        if !(bl == wl || (wl > 0 && bl == wl - 1)) {
            self.board_lines.clear();
            return reply_line("ERROR Board error.");
        }
        let (first, second) = if bl == wl {
            (black, white)
        } else {
            (white, black)
        };
        let rule = self.config.rule_set;
        self.board = Board::new();
        let ghost start = self.board@;
        proof {
            assert(start.history =~= Seq::<crate::types::PlayedMove>::empty());
        }
        let n = if first.len() > second.len() {
            first.len()
        } else {
            second.len()
        };
        let mut idx: usize = 0;
        let mut failed = false;
        while idx < n && !failed
            invariant
                self.wf(),
                self.config == old(self).config,
                rule == self.config.rule_set,
                self.board@.table == start.table,
                idx <= n,
                n == (if first@.len() > second@.len() {
                    first@.len()
                } else {
                    second@.len()
                }),
                self.board_lines@ == old(self).board_lines@,
                self.board_mode == old(self).board_mode,
                self.node_limit == old(self).node_limit,
                self.tt_bits == old(self).tt_bits,
                self.ended == old(self).ended,
                opt_text(self.pending_error) == opt_text(old(self).pending_error),
                self.engine_reset == old(self).engine_reset,
                !failed ==> setup_from(start, first@, second@, 0, rule) == setup_from(
                    self.board@,
                    first@,
                    second@,
                    idx as int,
                    rule,
                ),
                failed ==> setup_from(start, first@, second@, 0, rule).is_none(),
            decreases n - idx,
        {
            let ghost before = self.board@;
            let mut ok = true;
            if idx < first.len() {
                let (x, y) = first[idx];
                if x >= BOARD_SIZE || y >= BOARD_SIZE {
                    ok = false;
                } else {
                    ok = self.play_xy(x, y);
                }
            }
            let ghost middle = self.board@;
            if ok && idx < second.len() {
                let (x, y) = second[idx];
                if x >= BOARD_SIZE || y >= BOARD_SIZE {
                    ok = false;
                } else {
                    ok = self.play_xy(x, y);
                }
            }
            if !ok {
                failed = true;
            }
            idx = idx + 1;
        }
        if failed {
            self.board.reset();
            self.board_lines.clear();
            proof {
                assert(self.board@ == start);
            }
            return reply_line("ERROR Board error.");
        }
        proof {
            assert(setup_from(self.board@, first@, second@, idx as int, rule) == Some(self.board@));
        }
        self.board_lines.clear();
        self.search_move()
    }

    fn handle_board_line(&mut self, raw: &Vec<char>) -> (r: ProtocolReply)
        requires
            old(self).wf(),
            old(self).board_mode,
        ensures
            final(self).wf(),
            board_line_step(*old(self), raw@, *final(self), r),
    {
        if eq_ignore_case(raw, "DONE") {
            self.board_mode = false;
            return self.board_done();
        }
        let f = comma_fields(raw);
        if f.len() != 3 {
            return reply_line("ERROR Board format error.");
        }
        proof {
            let fv = views(f@);
            assert(fv[0] == f@[0]@);
            assert(fv[1] == f@[1]@);
            assert(fv[2] == f@[2]@);
        }
        let x = parse_one_i32(&f[0]);
        let y = parse_one_i32(&f[1]);
        let c = parse_one_i32(&f[2]);
        match (x, y, c) {
            (Some(x), Some(y), Some(c)) => {
                if x >= 0 && y >= 0 && x < 15 && y < 15 {
                    self.board_lines.push((x as usize, y as usize, c));
                    no_lines()
                } else {
                    reply_line("ERROR Board format error.")
                }
            },
            _ => reply_line("ERROR Board format error."),
        }
    }

    /// Handles one protocol line.
    pub fn handle_line(&mut self, line: &str) -> (r: ProtocolReply)
        requires
            old(self).wf(),
        ensures
            final(self).wf(),
            line_step(*old(self), line@, *final(self), r),
    {
        let chars = chars_of(line);
        let raw = trim_chars(&chars);
        if raw.len() == 0 {
            return no_lines();
        }
        if self.board_mode {
            return self.handle_board_line(&raw);
        }
        let ws = split_words(&raw);
        proof {
            crate::protocol::tokens::lemma_trimmed_has_word(line@);
            assert(views(ws@)[0] == ws@[0]@);
        }
        let cmd = &ws[0];
        if is_upper_word(cmd, "START") {
            self.handle_start(&ws)
        } else if is_upper_word(cmd, "RECTSTART") {
            self.handle_rectstart(&ws)
        } else if is_upper_word(cmd, "RESTART") {
            self.reset_engine();
            reply_line("OK")
        } else if is_upper_word(cmd, "BEGIN") {
            self.search_move()
        } else if is_upper_word(cmd, "TURN") {
            self.handle_turn(&ws)
        } else if is_upper_word(cmd, "BOARD") {
            self.board_mode = true;
            self.board_lines.clear();
            no_lines()
        } else if is_upper_word(cmd, "INFO") {
            self.handle_info(&ws)
        } else if is_upper_word(cmd, "TAKEBACK") {
            self.handle_takeback(&ws)
        } else if is_upper_word(cmd, "ABOUT") {
            reply_line(ABOUT_TEXT)
        } else if is_upper_word(cmd, "END") {
            self.ended = true;
            no_lines()
        } else {
            no_lines()
        }
    }
}

} // verus!
