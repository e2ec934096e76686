//! The game controller that desktop and mobile front ends drive: who plays
//! which side, whose turn it is, what the player is told, and when the
//! engine is asked for a move.
//!
//! The engine's search itself runs outside: `prepare_engine_search` hands out
//! a task with a copy of the position, and the caller reports the move it
//! found with `commit_engine_search`. A report from an earlier game or an
//! earlier position is recognised by its generation and dropped.
use vstd::prelude::*;
use vstd::string::StringExecFns;

use crate::board::{lemma_undo_after_play, model_wf, move_to_xy, xy_to_move, Board, BoardError, BoardModel};
use crate::config::{apply_engine_profile, with_profile, EngineProfile, EngineSettings};
use crate::constants::{BLACK, BOARD_AREA, BOARD_SIZE, EMPTY, WHITE};
use crate::game::{
    board_cells, detected, difficulty_settings, forbidden_name, forbidden_upto, last_move_xy,
    move_record, move_snapshots, shows_point, visible_forbidden_points, with_difficulty,
    ForbiddenPointSnapshot, GameMode, GameMoveSnapshot, GameParamsSnapshot, SearchDifficulty,
};
use crate::rules::{classify_spec, ForbiddenKind, RuleSet};
use crate::search::root::SearchResult;
use crate::text::{append_decimal, decimal_spec};
use crate::types::{valid_side, Move, Side};

verus! {

pub struct GameController {
    pub config: EngineSettings,
    pub board: Board,
    pub human_side: Side,
    pub mode: GameMode,
    pub engine_thinking: bool,
    pub status: String,
    pub error: Option<String>,
    pub last_mark: Option<(usize, usize)>,
    pub last_result: Option<SearchResult>,
    pub difficulty: Option<SearchDifficulty>,
    /// Counts new games and take-backs; a search started in another
    /// generation is not committed.
    pub generation: u64,
}

/// What the engine is asked to search: a copy of the position and settings,
/// the depth and root width, and the generation it was asked in.
pub struct EngineSearchTask {
    pub board: Board,
    pub config: EngineSettings,
    pub max_depth: i32,
    pub root_width: usize,
    pub generation: u64,
}

/// The move the engine found for a task.
pub struct EngineSearchCompletion {
    pub result: SearchResult,
    pub generation: u64,
}

impl EngineSearchCompletion {
    pub fn new(result: SearchResult, generation: u64) -> (c: Self)
        ensures
            c.result == result,
            c.generation == generation,
    {
        EngineSearchCompletion { result, generation }
    }
}

/// The engine's last move as a front end shows it.
#[derive(Clone, Debug, PartialEq, Eq)]
pub struct SearchResultSnapshot {
    pub move_xy: [usize; 2],
    pub score: i32,
    pub depth: i32,
    pub nodes: usize,
}

/// Everything a front end draws.
#[derive(Clone, Debug, PartialEq, Eq)]
pub struct GameStateSnapshot {
    pub board_size: usize,
    pub cells: Vec<i8>,
    pub moves: Vec<GameMoveSnapshot>,
    pub forbidden_points: Vec<ForbiddenPointSnapshot>,
    pub human_side: i8,
    pub side_to_move: i8,
    pub winner: i8,
    pub move_count: usize,
    pub can_play: bool,
    pub engine_thinking: bool,
    pub status: String,
    pub error: Option<String>,
    pub last_mark: Option<[usize; 2]>,
    pub last_result: Option<SearchResultSnapshot>,
    pub params: GameParamsSnapshot,
}

// ---------------------------------------------------------------------------
// The model of the controller's steps.
// ---------------------------------------------------------------------------

pub open spec fn text_of(o: Option<String>) -> Option<Seq<char>> {
    match o {
        Some(s) => Some(s@),
        None => None,
    }
}

/// Only the error changed, to `message`.
pub open spec fn rejected(pre: GameController, post: GameController, message: Seq<char>) -> bool {
    &&& text_of(post.error) == Some(message)
    &&& post.board@ == pre.board@
    &&& post == GameController { error: post.error, board: post.board, ..pre }
}

/// The generation after `g`, wrapping round.
pub open spec fn next_generation(g: u64) -> u64 {
    if g == u64::MAX {
        0
    } else {
        (g + 1) as u64
    }
}

/// The empty board, black to move.
pub open spec fn cleared(bm: BoardModel) -> BoardModel {
    BoardModel {
        cells: Seq::new(BOARD_AREA as nat, |i: int| EMPTY),
        history: Seq::empty(),
        side_to_move: BLACK,
        winner: EMPTY,
        key: 0,
        table: bm.table,
    }
}

pub open spec fn rule_label(rule: RuleSet) -> Seq<char> {
    match rule {
        RuleSet::Freestyle => "无禁手"@,
        RuleSet::Renju => "有禁手"@,
    }
}

/// What the player is told when a game starts.
pub open spec fn new_game_status(rule: RuleSet, mode: GameMode, human_side: Side) -> Seq<char> {
    match mode {
        GameMode::TwoPlayer => "新局开始（双人 / "@ + rule_label(rule) + "）：黑方先行。"@,
        GameMode::VsEngine => if human_side == BLACK {
            "新局开始（"@ + rule_label(rule) + "）：你执黑，请落子。"@
        } else {
            "新局开始（"@ + rule_label(rule) + "）：你执白，引擎执黑思考中。"@
        },
    }
}


/// The side whose forbidden points a human move is judged by: the side to
/// move in a two-player game, the human's side against the engine.
pub open spec fn judged_side(c: GameController) -> Side {
    match c.mode {
        GameMode::TwoPlayer => c.board@.side_to_move,
        GameMode::VsEngine => c.human_side,
    }
}

/// The forbidden kind of `m` for `side`, when it is a forbidden point.
pub open spec fn forbidden_at(bm: BoardModel, m: Move, side: Side, rule: RuleSet) -> Option<ForbiddenKind> {
    match classify_spec(bm.cells, m, side, rule) {
        Ok(kind) => if kind != ForbiddenKind::NotForbidden {
            Some(kind)
        } else {
            None
        },
        Err(_) => None,
    }
}

pub open spec fn forbidden_label(kind: ForbiddenKind) -> Seq<char> {
    match kind {
        ForbiddenKind::NotForbidden => "无"@,
        ForbiddenKind::DoubleThree => "三三禁手"@,
        ForbiddenKind::DoubleFour => "四四禁手"@,
        ForbiddenKind::Overline => "长连禁手"@,
    }
}

/// What the player is told after a human move.
pub open spec fn human_move_status(mode: GameMode, bm: BoardModel, human_side: Side) -> Seq<char> {
    match mode {
        GameMode::TwoPlayer => if bm.winner == BLACK {
            "黑方胜。"@
        } else if bm.winner == WHITE {
            "白方胜。"@
        } else if bm.side_to_move == BLACK {
            "轮到黑方落子。"@
        } else {
            "轮到白方落子。"@
        },
        GameMode::VsEngine => if bm.winner == human_side {
            "你赢了。"@
        } else {
            "你已落子，引擎思考中。"@
        },
    }
}

/// A human move at `(x, y)`: refused with a message that says why, or
/// played, with `engine_next` telling whether the engine moves next.
pub open spec fn human_move_step(pre: GameController, x: int, y: int, post: GameController, engine_next: bool) -> bool {
    let base = GameController { error: None, ..pre };
    let m = (y * 15 + x) as Move;
    if !pre.can_play_spec() {
        rejected(base, post, "现在不能落子。"@) && !engine_next
    } else if !(0 <= x < 15 && 0 <= y < 15) {
        rejected(base, post, "缺少坐标或坐标超出棋盘。"@) && !engine_next
    } else if forbidden_at(pre.board@, m, judged_side(pre), pre.config.rule_set) is Some {
        rejected(
            base,
            post,
            "黑棋禁手："@ + forbidden_label(
                forbidden_at(pre.board@, m, judged_side(pre), pre.config.rule_set)->0,
            ) + "，不能落在这里。"@,
        ) && !engine_next
    } else if !pre.board@.legal(m) {
        rejected(base, post, "非法落子："@ + BoardError::IllegalMove(m).debug_spec()) && !engine_next
    } else {
        let bm = pre.board@.after_play(m, pre.board@.side_to_move, pre.config.rule_set);
        &&& post.board@ == bm
        &&& post.status@ == human_move_status(pre.mode, bm, pre.human_side)
        &&& post == GameController {
            board: post.board,
            status: post.status,
            last_mark: Some((x as usize, y as usize)),
            ..base
        }
        &&& engine_next == (pre.mode == GameMode::VsEngine && bm.winner != pre.human_side)
    }
}

/// Against the engine: take moves back, at most `budget`, until it is the
/// human's turn.
pub open spec fn undo_until_human(bm: BoardModel, human_side: Side, budget: nat) -> BoardModel
    decreases budget,
{
    if budget == 0 || bm.history.len() == 0 {
        bm
    } else {
        let back = bm.after_undo();
        if back.side_to_move == human_side {
            back
        } else {
            undo_until_human(back, human_side, (budget - 1) as nat)
        }
    }
}

/// The point of the last move of `bm`, if any.
pub open spec fn last_point(bm: BoardModel) -> Option<(usize, usize)> {
    if bm.history.len() == 0 {
        None
    } else {
        Some(((bm.history.last().move_ % 15) as usize, (bm.history.last().move_ / 15) as usize))
    }
}

/// What the player is told after a take-back.
pub open spec fn undo_status(mode: GameMode, bm: BoardModel, human_side: Side) -> Seq<char> {
    match mode {
        GameMode::TwoPlayer => if bm.side_to_move == BLACK {
            "已悔棋，轮到黑方落子。"@
        } else {
            "已悔棋，轮到白方落子。"@
        },
        GameMode::VsEngine => if bm.side_to_move == human_side {
            "已悔棋，请继续落子。"@
        } else if bm.history.len() == 0 && human_side == WHITE {
            "已撤回引擎首手；点击“我执白”可重新让引擎开局。"@
        } else {
            "已悔棋，当前不是你的回合。"@
        },
    }
}

/// A take-back: refused while the engine searches or before any move;
/// otherwise one move in a two-player game, and against the engine back to
/// the human's turn, taking at most two moves.
pub open spec fn undo_step(pre: GameController, post: GameController) -> bool {
    let base = GameController { error: None, ..pre };
    if pre.engine_thinking {
        rejected(pre, post, "引擎思考中，暂不能悔棋。"@)
    } else if pre.board@.history.len() == 0 {
        rejected(base, post, "当前没有可悔棋步。"@)
    } else {
        let bm = match pre.mode {
            GameMode::TwoPlayer => pre.board@.after_undo(),
            GameMode::VsEngine => undo_until_human(pre.board@, pre.human_side, 2),
        };
        &&& post.board@ == bm
        &&& post.status@ == undo_status(pre.mode, bm, pre.human_side)
        &&& post == GameController {
            board: post.board,
            status: post.status,
            last_mark: last_point(bm),
            last_result: None,
            generation: next_generation(pre.generation),
            ..base
        }
    }
}

pub open spec fn profile_label(profile: EngineProfile) -> Seq<char> {
    match profile {
        EngineProfile::Base => "Base"@,
        EngineProfile::Fast => "Fast"@,
    }
}

pub open spec fn difficulty_label(d: SearchDifficulty) -> Seq<char> {
    match d {
        SearchDifficulty::Beginner => "入门"@,
        SearchDifficulty::Junior => "初级"@,
        SearchDifficulty::Intermediate => "中级"@,
        SearchDifficulty::Senior => "高级"@,
        SearchDifficulty::Master => "大师"@,
    }
}

/// What the player is told after choosing preset `d`.
pub open spec fn difficulty_status(d: SearchDifficulty) -> Seq<char> {
    let (depth, width, tactical) = difficulty_settings(d);
    "已切换到"@ + difficulty_label(d) + "难度（d"@ + decimal_spec(depth as nat) + "/w"@ + decimal_spec(
        width as nat,
    ) + "，VCF/VCT "@ + (if tactical {
        "开启"@
    } else {
        "关闭"@
    }) + "），下一次引擎思考生效。"@
}

/// The engine may be asked for a move: a game against it, no search
/// running, no winner, and not the human's turn.
pub open spec fn engine_may_search(c: GameController) -> bool {
    &&& c.mode == GameMode::VsEngine
    &&& !c.engine_thinking
    &&& c.board@.winner == EMPTY
    &&& c.board@.side_to_move != c.human_side
}

/// The engine may play `m` now.
pub open spec fn engine_may_play(bm: BoardModel, m: Move, rule: RuleSet) -> bool {
    bm.legal(m) && classify_spec(bm.cells, m, bm.side_to_move, rule) == Ok::<ForbiddenKind, BoardError>(
        ForbiddenKind::NotForbidden,
    )
}

/// Committing the engine's move `result`, found in the current generation.
pub open spec fn commit_step(pre: GameController, result: SearchResult, post: GameController) -> bool {
    let base = GameController { engine_thinking: false, ..pre };
    let m = result.move_;
    if !(pre.board@.winner == EMPTY && pre.board@.side_to_move != pre.human_side) {
        post.board@ == pre.board@ && post == GameController { board: post.board, ..base }
    } else if !engine_may_play(pre.board@, m, pre.config.rule_set) {
        &&& text_of(post.error) == Some("引擎返回禁手或非法落子。"@)
        &&& post.status@ == "引擎落子失败。"@
        &&& post.board@ == pre.board@
        &&& post == GameController { board: post.board, error: post.error, status: post.status, ..base }
    } else {
        let bm = pre.board@.after_play(m, pre.board@.side_to_move, pre.config.rule_set);
        &&& post.board@ == bm
        &&& post.status@ == (if bm.winner == EMPTY {
            "引擎已落子，轮到你。"@
        } else {
            "引擎获胜。"@
        })
        &&& post == GameController {
            board: post.board,
            status: post.status,
            last_mark: Some(((m % 15) as usize, (m / 15) as usize)),
            last_result: Some(result),
            ..base
        }
    }
}

pub open spec fn mode_name(mode: GameMode) -> Seq<char> {
    match mode {
        GameMode::VsEngine => "vs_engine"@,
        GameMode::TwoPlayer => "two_player"@,
    }
}

pub open spec fn profile_name(profile: EngineProfile) -> Seq<char> {
    match profile {
        EngineProfile::Base => "base"@,
        EngineProfile::Fast => "fast"@,
    }
}

/// The preset's name, or `custom` for settings that match none.
pub open spec fn difficulty_name(d: Option<SearchDifficulty>) -> Seq<char> {
    match d {
        Some(SearchDifficulty::Beginner) => "beginner"@,
        Some(SearchDifficulty::Junior) => "junior"@,
        Some(SearchDifficulty::Intermediate) => "intermediate"@,
        Some(SearchDifficulty::Senior) => "senior"@,
        Some(SearchDifficulty::Master) => "master"@,
        None => "custom"@,
    }
}

pub open spec fn rule_name(rule: RuleSet) -> Seq<char> {
    match rule {
        RuleSet::Freestyle => "freestyle"@,
        RuleSet::Renju => "renju"@,
    }
}

/// The settings a front end shows for controller `c`.
pub open spec fn shows_params(p: GameParamsSnapshot, c: GameController) -> bool {
    &&& p.mode@ == mode_name(c.mode)
    &&& p.profile@ == profile_name(c.config.profile)
    &&& p.difficulty@ == difficulty_name(c.difficulty)
    &&& p.depth == c.config.root_search.depth
    &&& p.width == c.config.root_search.wide as usize
    &&& p.compute_vcf == c.config.runtime.compute_vcf
    &&& p.root_vcf_depth == c.config.runtime.root_vcf_depth
    &&& p.opponent_vcf_depth == c.config.runtime.opponent_vcf_depth
    &&& p.compute_vct == c.config.runtime.compute_vct
    &&& p.root_vct_depth == c.config.runtime.root_vct_depth
    &&& p.overlap_vct_alphabeta == c.config.runtime.overlap_vct_alphabeta
    &&& p.fast_history_ordering == c.config.runtime.fast_history_ordering
    &&& p.static_board == c.config.runtime.static_board
    &&& p.dynamic_board_margin == c.config.runtime.dynamic_board_margin
    &&& p.rule@ == rule_name(c.config.rule_set)
}

/// The engine's last move as shown: its point, score, depth and nodes.
pub open spec fn shows_result(shown: Option<SearchResultSnapshot>, result: Option<SearchResult>) -> bool {
    match result {
        None => shown.is_none(),
        Some(r) => shown matches Some(v) && {
            &&& v.move_xy@ == seq![(r.move_ % 15) as usize, (r.move_ / 15) as usize]
            &&& v.score == r.score
            &&& v.depth == r.depth
            &&& v.nodes == r.nodes
        },
    }
}

pub open spec fn shows_mark(shown: Option<[usize; 2]>, mark: Option<(usize, usize)>) -> bool {
    match mark {
        None => shown.is_none(),
        Some((x, y)) => shown matches Some(a) && a@ == seq![x, y],
    }
}

/// Against the engine, a take-back right after the engine answered a human
/// move gives back the position before the human's move.
pub proof fn lemma_undo_takes_back_a_turn(
    pre: BoardModel,
    human_move: Move,
    engine_move: Move,
    rule: RuleSet,
)
    requires
        model_wf(pre),
        pre.legal(human_move),
        pre.after_play(human_move, pre.side_to_move, rule).legal(engine_move),
    ensures
        ({
            let mid = pre.after_play(human_move, pre.side_to_move, rule);
            undo_until_human(mid.after_play(engine_move, mid.side_to_move, rule), pre.side_to_move, 2) == pre
        }),
{
    let human = pre.side_to_move;
    let mid = pre.after_play(human_move, human, rule);
    let post = mid.after_play(engine_move, mid.side_to_move, rule);
    assert(model_wf(mid)) by {
        assert forall|i: int| 0 <= i < mid.history.len() implies (#[trigger] mid.history[i]).move_
            < BOARD_AREA && valid_side(mid.history[i].side) by {
            if i < pre.history.len() {
                assert(mid.history[i] == pre.history[i]);
            }
        }
    }
    lemma_undo_after_play(pre, human_move, human, rule);
    lemma_undo_after_play(mid, engine_move, mid.side_to_move, rule);
    reveal_with_fuel(undo_until_human, 3);
    assert(post.after_undo() == mid);
    assert(mid.side_to_move != human);
}

/// Starting a game: refused, with the game kept, when the human's side is
/// neither black nor white; otherwise a cleared board under `rule`.
pub open spec fn new_game_step(
    pre: GameController,
    human_side: Side,
    rule: RuleSet,
    mode: GameMode,
    post: GameController,
    ok: bool,
) -> bool {
    &&& ok == (human_side == BLACK || human_side == WHITE)
    &&& !ok ==> rejected(pre, post, "执棋方必须是黑方或白方。"@)
    &&& ok ==> {
        &&& post.board@ == cleared(pre.board@)
        &&& post.config == (EngineSettings { rule_set: rule, ..pre.config })
        &&& post.human_side == human_side
        &&& post.mode == mode
        &&& !post.engine_thinking
        &&& post.status@ == new_game_status(rule, mode, human_side)
        &&& post.error.is_none()
        &&& post.last_mark.is_none()
        &&& post.last_result.is_none()
        &&& post.difficulty == pre.difficulty
        &&& post.generation == next_generation(pre.generation)
    }
}

/// Switching the engine profile: refused while the engine searches.
pub open spec fn profile_step(pre: GameController, profile: EngineProfile, post: GameController) -> bool {
    &&& pre.engine_thinking ==> rejected(pre, post, "引擎思考中，暂不能切换模式。"@)
    &&& !pre.engine_thinking ==> {
        &&& post.status@ == "已切换到 "@ + profile_label(profile) + " 模式，当前棋局不变，下一次引擎思考生效。"@
        &&& post.board@ == pre.board@
        &&& post == GameController {
            config: with_profile(pre.config, profile),
            error: None,
            last_result: None,
            status: post.status,
            board: post.board,
            ..pre
        }
    }
}

impl GameController {
    pub open spec fn wf(&self) -> bool {
        &&& self.board.wf()
        &&& self.last_result matches Some(r) ==> r.move_ < BOARD_AREA
    }

    /// A human may place a stone now.
    pub open spec fn can_play_spec(&self) -> bool {
        &&& !self.engine_thinking
        &&& self.board@.winner == EMPTY
        &&& match self.mode {
            GameMode::TwoPlayer => true,
            GameMode::VsEngine => self.board@.side_to_move == self.human_side,
        }
    }

    /// A controller on an empty board, the human to choose a side; the
    /// difficulty is the preset the settings match, if any.
    pub fn new(config: EngineSettings) -> (c: Self)
        ensures
            c.wf(),
            c.config == config,
            c.board@.history.len() == 0,
            c.board@.cells == Seq::new(BOARD_AREA as nat, |i: int| EMPTY),
            c.board@.side_to_move == BLACK,
            c.board@.winner == EMPTY,
            c.human_side == BLACK,
            c.mode == GameMode::VsEngine,
            !c.engine_thinking,
            c.status@ == "请选择执黑或执白，然后开始对局。"@,
            c.error.is_none(),
            c.last_mark.is_none(),
            c.last_result.is_none(),
            c.difficulty == detected(
                config.root_search.depth,
                config.root_search.wide,
                config.runtime.compute_vcf,
                config.runtime.compute_vct,
            ),
            c.generation == 0,
    {
        let difficulty = SearchDifficulty::detect(
            config.root_search.depth,
            config.root_search.wide,
            config.runtime.compute_vcf,
            config.runtime.compute_vct,
        );
        GameController {
            config,
            board: Board::new(),
            human_side: BLACK,
            mode: GameMode::VsEngine,
            engine_thinking: false,
            status: String::from_str("请选择执黑或执白，然后开始对局。"),
            error: None,
            last_mark: None,
            last_result: None,
            difficulty,
            generation: 0,
        }
    }

    pub fn board(&self) -> (b: &Board)
        ensures
            b == &self.board,
    {
        &self.board
    }

    pub fn config(&self) -> (c: &EngineSettings)
        ensures
            c == &self.config,
    {
        &self.config
    }

    pub fn set_error(&mut self, message: String)
        ensures
            rejected(*old(self), *final(self), message@),
    {
        self.error = Some(message);
    }

    /// Whether a human may place a stone now: no search running, no winner,
    /// and, against the engine, the human's turn.
    pub fn can_human_play(&self) -> (b: bool)
        requires
            self.wf(),
        ensures
            b == self.can_play_spec(),
    {
        if self.engine_thinking || self.board.winner() != EMPTY {
            return false;
        }
        match self.mode {
            GameMode::TwoPlayer => true,
            GameMode::VsEngine => self.board.side_to_move() == self.human_side,
        }
    }

    /// Starts a game with the human on `human_side` under `rule`; refused,
    /// with the game kept, when the side is neither black nor white.
    pub fn new_game(&mut self, human_side: Side, rule: RuleSet, mode: GameMode) -> (ok: bool)
        requires
            old(self).wf(),
        ensures
            final(self).wf(),
            new_game_step(*old(self), human_side, rule, mode, *final(self), ok),
    {
        if human_side != BLACK && human_side != WHITE {
            self.error = Some(String::from_str("执棋方必须是黑方或白方。"));
            return false;
        }
        self.generation = if self.generation == u64::MAX {
            0
        } else {
            self.generation + 1
        };
        self.board.reset();
        self.config.rule_set = rule;
        self.human_side = human_side;
        self.mode = mode;
        self.engine_thinking = false;
        let rule_name = match rule {
            RuleSet::Freestyle => "无禁手",
            RuleSet::Renju => "有禁手",
        };
        self.status = match mode {
            GameMode::TwoPlayer => String::from_str("新局开始（双人 / ").concat(rule_name).concat(
                "）：黑方先行。",
            ),
            GameMode::VsEngine => if human_side == BLACK {
                String::from_str("新局开始（").concat(rule_name).concat("）：你执黑，请落子。")
            } else {
                String::from_str("新局开始（").concat(rule_name).concat("）：你执白，引擎执黑思考中。")
            },
        };
        self.error = None;
        self.last_mark = None;
        self.last_result = None;
        true
    }
    /// A human places a stone at `(x, y)`. Returns whether the engine is to
    /// move next; a refused move leaves the game and says why in the error.
    pub fn play_human(&mut self, x: usize, y: usize) -> (engine_next: bool)
        requires
            old(self).wf(),
        ensures
            final(self).wf(),
            human_move_step(*old(self), x as int, y as int, *final(self), engine_next),
    {
        self.error = None;
        if !self.can_human_play() {
            self.error = Some(String::from_str("现在不能落子。"));
            return false;
        }
        let move_ = match xy_to_move(x, y) {
            Ok(m) => m,
            Err(_) => {
                self.error = Some(String::from_str("缺少坐标或坐标超出棋盘。"));
                return false;
            },
        };
        let judged_side = match self.mode {
            GameMode::TwoPlayer => self.board.side_to_move(),
            GameMode::VsEngine => self.human_side,
        };
        match self.board.forbidden_kind_for_rule(move_, judged_side, self.config.rule_set) {
            Ok(kind) => {
                if kind.is_forbidden() {
                    self.error = Some(
                        String::from_str("黑棋禁手：").concat(forbidden_name(kind)).concat("，不能落在这里。"),
                    );
                    return false;
                }
            },
            Err(_) => {},
        }
        match self.board.play_for_rule(move_, None, self.config.rule_set) {
            Ok(_) => {
                self.last_mark = Some((x, y));
                match self.mode {
                    GameMode::TwoPlayer => {
                        let winner = self.board.winner();
                        self.status = if winner == BLACK {
                            String::from_str("黑方胜。")
                        } else if winner == WHITE {
                            String::from_str("白方胜。")
                        } else if self.board.side_to_move() == BLACK {
                            String::from_str("轮到黑方落子。")
                        } else {
                            String::from_str("轮到白方落子。")
                        };
                        false
                    },
                    GameMode::VsEngine => {
                        if self.board.winner() == self.human_side {
                            self.status = String::from_str("你赢了。");
                            false
                        } else {
                            self.status = String::from_str("你已落子，引擎思考中。");
                            true
                        }
                    },
                }
            },
            Err(err) => {
                self.error = Some(String::from_str("非法落子：").concat(err.debug_text().as_str()));
                false
            },
        }
    }
    /// Takes moves back: one in a two-player game; against the engine until
    /// it is the human's turn again, at most two.
    pub fn undo_turn(&mut self)
        requires
            old(self).wf(),
        ensures
            final(self).wf(),
            undo_step(*old(self), *final(self)),
    {
        if self.engine_thinking {
            self.error = Some(String::from_str("引擎思考中，暂不能悔棋。"));
            return;
        }
        self.error = None;
        if self.board.move_count() == 0 {
            self.error = Some(String::from_str("当前没有可悔棋步。"));
            return;
        }
        self.generation = if self.generation == u64::MAX {
            0
        } else {
            self.generation + 1
        };
        if self.mode == GameMode::TwoPlayer {
            let _ = self.board.undo();
            self.last_mark = last_move_xy(&self.board);
            self.last_result = None;
            self.status = if self.board.side_to_move() == BLACK {
                String::from_str("已悔棋，轮到黑方落子。")
            } else {
                String::from_str("已悔棋，轮到白方落子。")
            };
            return;
        }
        // Back to the human's turn, taking at most two moves.
        proof {
            reveal_with_fuel(undo_until_human, 3);
        }
        let _ = self.board.undo();
        if self.board.side_to_move() != self.human_side && self.board.move_count() > 0 {
            let _ = self.board.undo();
        }
        self.last_mark = last_move_xy(&self.board);
        self.last_result = None;
        self.status = if self.board.side_to_move() == self.human_side {
            String::from_str("已悔棋，请继续落子。")
        } else if self.board.move_count() == 0 && self.human_side == WHITE {
            String::from_str("已撤回引擎首手；点击“我执白”可重新让引擎开局。")
        } else {
            String::from_str("已悔棋，当前不是你的回合。")
        };
    }

    /// Switches the engine profile for the next search; refused while the
    /// engine searches.
    pub fn set_profile(&mut self, profile: EngineProfile)
        requires
            old(self).wf(),
        ensures
            final(self).wf(),
            profile_step(*old(self), profile, *final(self)),
    {
        if self.engine_thinking {
            self.error = Some(String::from_str("引擎思考中，暂不能切换模式。"));
            return;
        }
        apply_engine_profile(&mut self.config, profile);
        self.error = None;
        self.last_result = None;
        let name = match profile {
            EngineProfile::Base => "Base",
            EngineProfile::Fast => "Fast",
        };
        self.status = String::from_str("已切换到 ").concat(name).concat(" 模式，当前棋局不变，下一次引擎思考生效。");
    }

    /// Switches to a difficulty preset for the next search; refused while
    /// the engine searches.
    pub fn set_difficulty(&mut self, difficulty: SearchDifficulty)
        requires
            old(self).wf(),
        ensures
            final(self).wf(),
            old(self).engine_thinking ==> rejected(*old(self), *final(self), "引擎思考中，暂不能切换难度。"@),
            !old(self).engine_thinking ==> {
                &&& final(self).status@ == difficulty_status(difficulty)
                &&& final(self).board@ == old(self).board@
                &&& *final(self) == GameController {
                    config: with_difficulty(old(self).config, difficulty),
                    difficulty: Some(difficulty),
                    error: None,
                    last_result: None,
                    status: final(self).status,
                    board: final(self).board,
                    ..*old(self)
                }
            },
    {
        if self.engine_thinking {
            self.error = Some(String::from_str("引擎思考中，暂不能切换难度。"));
            return;
        }
        let (depth, width, tactical) = difficulty.settings();
        difficulty.apply_to_config(&mut self.config);
        self.difficulty = Some(difficulty);
        self.error = None;
        self.last_result = None;
        let mut status = String::from_str("已切换到").concat(difficulty.label()).concat("难度（d");
        append_decimal(&mut status, depth as u64);
        status.append("/w");
        append_decimal(&mut status, width as u64);
        status.append("，VCF/VCT ");
        status.append(if tactical { "开启" } else { "关闭" });
        status.append("），下一次引擎思考生效。");
        self.status = status;
    }
    /// Starts an engine search when the engine is to move: the controller
    /// is marked as searching and the task carries a copy of the position.
    pub fn prepare_engine_search(&mut self) -> (task: Option<EngineSearchTask>)
        requires
            old(self).wf(),
        ensures
            final(self).wf(),
            !engine_may_search(*old(self)) ==> task.is_none() && *final(self) == *old(self),
            engine_may_search(*old(self)) ==> {
                &&& task matches Some(t) && {
                    &&& t.board@ == old(self).board@
                    &&& t.board.wf()
                    &&& t.config == old(self).config
                    &&& t.max_depth == old(self).config.root_search.depth
                    &&& t.root_width == old(self).config.root_search.wide as usize
                    &&& t.generation == old(self).generation
                }
                &&& final(self).status@ == "引擎思考中..."@
                &&& *final(self) == GameController {
                    engine_thinking: true,
                    error: None,
                    status: final(self).status,
                    ..*old(self)
                }
            },
    {
        if self.mode == GameMode::TwoPlayer || self.engine_thinking || self.board.winner() != EMPTY
            || self.board.side_to_move() == self.human_side {
            return None;
        }
        self.engine_thinking = true;
        self.error = None;
        self.status = String::from_str("引擎思考中...");
        Some(
            EngineSearchTask {
                board: self.board.duplicate(),
                config: self.config,
                max_depth: self.config.root_search.depth,
                root_width: self.config.root_search.wide as usize,
                generation: self.generation,
            },
        )
    }

    /// Plays the move an engine search found. A search from another
    /// generation is dropped (returns false); otherwise the move is played
    /// when the engine is still to move and may play it, an error is
    /// reported when it may not, and the search is over.
    pub fn commit_engine_search(&mut self, completion: EngineSearchCompletion) -> (current: bool)
        requires
            old(self).wf(),
        ensures
            final(self).wf(),
            current == (old(self).generation == completion.generation),
            !current ==> *final(self) == *old(self),
            current ==> commit_step(*old(self), completion.result, *final(self)),
    {
        if self.generation != completion.generation {
            return false;
        }
        let m = completion.result.move_;
        if self.board.winner() == EMPTY && self.board.side_to_move() != self.human_side {
            if !self.board.is_legal_move_for_rule(m, self.board.side_to_move(), self.config.rule_set) {
                self.error = Some(String::from_str("引擎返回禁手或非法落子。"));
                self.status = String::from_str("引擎落子失败。");
            } else {
                match self.board.play_for_rule(m, None, self.config.rule_set) {
                    Ok(_) => {
                        self.last_mark = match move_to_xy(m) {
                            Ok(xy) => Some(xy),
                            Err(_) => None,
                        };
                        self.last_result = Some(completion.result);
                        self.status = if self.board.winner() == EMPTY {
                            String::from_str("引擎已落子，轮到你。")
                        } else {
                            String::from_str("引擎获胜。")
                        };
                    },
                    Err(err) => {
                        self.error = Some(String::from_str("引擎返回非法落子：").concat(err.debug_text().as_str()));
                        self.status = String::from_str("引擎落子失败。");
                    },
                }
            }
        }
        self.engine_thinking = false;
        true
    }
    /// The state a front end draws.
    pub fn snapshot(&self) -> (s: GameStateSnapshot)
        requires
            self.wf(),
        ensures
            s.board_size == BOARD_SIZE,
            s.cells@ == self.board@.cells,
            s.moves@.len() == self.board@.history.len(),
            forall|i: int| 0 <= i < s.moves@.len() ==> #[trigger] s.moves@[i] == move_record(self.board@.history, i),
            self.config.rule_set != RuleSet::Renju || self.board@.side_to_move != BLACK
                || self.board@.winner != EMPTY ==> s.forbidden_points@.len() == 0,
            self.config.rule_set == RuleSet::Renju && self.board@.side_to_move == BLACK
                && self.board@.winner == EMPTY ==> {
                let ks = forbidden_upto(self.board@, BOARD_AREA as int);
                &&& s.forbidden_points@.len() == ks.len()
                &&& forall|i: int| 0 <= i < ks.len() ==> shows_point(#[trigger] s.forbidden_points@[i], self.board@, ks[i])
            },
            s.human_side == self.human_side,
            s.side_to_move == self.board@.side_to_move,
            s.winner == self.board@.winner,
            s.move_count == self.board@.history.len(),
            s.can_play == self.can_play_spec(),
            s.engine_thinking == self.engine_thinking,
            s.status@ == self.status@,
            text_of(s.error) == text_of(self.error),
            shows_mark(s.last_mark, self.last_mark),
            shows_result(s.last_result, self.last_result),
            shows_params(s.params, *self),
    {
        let last_result = match self.last_result {
            Some(r) => {
                let index = r.move_ as usize;
                Some(
                    SearchResultSnapshot {
                        move_xy: [index % BOARD_SIZE, index / BOARD_SIZE],
                        score: r.score,
                        depth: r.depth,
                        nodes: r.nodes,
                    },
                )
            },
            None => None,
        };
        let last_mark = match self.last_mark {
            Some((x, y)) => Some([x, y]),
            None => None,
        };
        let error = match &self.error {
            Some(e) => Some(e.clone()),
            None => None,
        };
        let difficulty = match self.difficulty {
            Some(d) => d.as_str(),
            None => "custom",
        };
        let params = GameParamsSnapshot {
            mode: self.mode.as_str(),
            profile: self.config.profile.as_str(),
            difficulty,
            depth: self.config.root_search.depth,
            width: self.config.root_search.wide as usize,
            compute_vcf: self.config.runtime.compute_vcf,
            root_vcf_depth: self.config.runtime.root_vcf_depth,
            opponent_vcf_depth: self.config.runtime.opponent_vcf_depth,
            compute_vct: self.config.runtime.compute_vct,
            root_vct_depth: self.config.runtime.root_vct_depth,
            overlap_vct_alphabeta: self.config.runtime.overlap_vct_alphabeta,
            fast_history_ordering: self.config.runtime.fast_history_ordering,
            static_board: self.config.runtime.static_board,
            dynamic_board_margin: self.config.runtime.dynamic_board_margin,
            rule: self.config.rule_set.as_str(),
        };
        GameStateSnapshot {
            board_size: BOARD_SIZE,
            cells: board_cells(&self.board),
            moves: move_snapshots(&self.board),
            forbidden_points: visible_forbidden_points(&self.board, self.config.rule_set),
            human_side: self.human_side,
            side_to_move: self.board.side_to_move(),
            winner: self.board.winner(),
            move_count: self.board.move_count(),
            can_play: self.can_human_play(),
            engine_thinking: self.engine_thinking,
            status: self.status.clone(),
            error,
            last_mark,
            last_result,
            params,
        }
    }
}

} // verus!
