//! Game settings and the plain records a front end shows: game modes,
//! difficulty presets, the moves played and the visible forbidden points.
use vstd::prelude::*;
use vstd::string::StringSliceAdditionalSpecFns;

use crate::board::{Board, BoardModel};
use crate::config::{EngineSettings, RootSearchDefaults, RuntimeOptions};
use crate::constants::{BLACK, BOARD_AREA, EMPTY};
use crate::rules::{classify_spec, ForbiddenKind, RuleSet};
use crate::text::{ascii_lower_eq, matches_word, unknown_name_message};
use crate::types::{Move, PlayedMove};

verus! {

/// Who controls the two sides of the board.
#[derive(Clone, Copy, Debug, PartialEq, Eq, Structural)]
pub enum GameMode {
    /// One human side, the engine plays the other.
    VsEngine,
    /// Two humans alternate on the same device; the engine never moves.
    TwoPlayer,
}

impl Default for GameMode {
    fn default() -> (m: Self)
        ensures
            m == GameMode::VsEngine,
    {
        GameMode::VsEngine
    }
}

impl GameMode {
    pub fn as_str(self) -> (s: &'static str)
        ensures
            self == GameMode::VsEngine ==> s@ == "vs_engine"@,
            self == GameMode::TwoPlayer ==> s@ == "two_player"@,
    {
        match self {
            GameMode::VsEngine => "vs_engine",
            GameMode::TwoPlayer => "two_player",
        }
    }
}

#[derive(Clone, Copy, Debug, PartialEq, Eq, Structural)]
pub enum SearchDifficulty {
    Beginner,
    Junior,
    Intermediate,
    Senior,
    Master,
}

/// The search depth, root width and tactical search switch of a preset.
pub open spec fn difficulty_settings(d: SearchDifficulty) -> (i32, i32, bool) {
    match d {
        SearchDifficulty::Beginner => (1, 10, false),
        SearchDifficulty::Junior => (2, 10, false),
        SearchDifficulty::Intermediate => (4, 20, false),
        SearchDifficulty::Senior => (6, 30, true),
        SearchDifficulty::Master => (8, 40, true),
    }
}

/// The preset, if any, whose settings the given ones are; the first in order
/// from beginner to master.
pub open spec fn detected(depth: i32, width: i32, compute_vcf: bool, compute_vct: bool) -> Option<SearchDifficulty> {
    let fits = |d: SearchDifficulty|
        {
            let (sd, sw, st) = difficulty_settings(d);
            depth == sd && width == sw && compute_vcf == st && compute_vct == st
        };
    if fits(SearchDifficulty::Beginner) {
        Some(SearchDifficulty::Beginner)
    } else if fits(SearchDifficulty::Junior) {
        Some(SearchDifficulty::Junior)
    } else if fits(SearchDifficulty::Intermediate) {
        Some(SearchDifficulty::Intermediate)
    } else if fits(SearchDifficulty::Senior) {
        Some(SearchDifficulty::Senior)
    } else if fits(SearchDifficulty::Master) {
        Some(SearchDifficulty::Master)
    } else {
        None
    }
}

/// The settings after choosing preset `d`: its depth and width, its
/// tactical switch for both threat searches, and, where that switch is on,
/// a root VCT depth of 4.
pub open spec fn with_difficulty(c: EngineSettings, d: SearchDifficulty) -> EngineSettings {
    let (depth, width, tactical) = difficulty_settings(d);
    EngineSettings {
        root_search: RootSearchDefaults { depth, wide: width, timed_max_wide: width, ..c.root_search },
        runtime: RuntimeOptions {
            compute_vcf: tactical,
            compute_vct: tactical,
            root_vct_depth: if tactical {
                PRESET_ROOT_VCT_DEPTH
            } else {
                c.runtime.root_vct_depth
            },
            ..c.runtime
        },
        ..c
    }
}

/// The root VCT depth of the presets that search threats.
pub const PRESET_ROOT_VCT_DEPTH: i32 = 4;

impl Default for SearchDifficulty {
    fn default() -> (d: Self)
        ensures
            d == SearchDifficulty::Intermediate,
    {
        SearchDifficulty::Intermediate
    }
}

impl SearchDifficulty {
    pub fn as_str(self) -> (s: &'static str)
        ensures
            self == SearchDifficulty::Beginner ==> s@ == "beginner"@,
            self == SearchDifficulty::Junior ==> s@ == "junior"@,
            self == SearchDifficulty::Intermediate ==> s@ == "intermediate"@,
            self == SearchDifficulty::Senior ==> s@ == "senior"@,
            self == SearchDifficulty::Master ==> s@ == "master"@,
    {
        match self {
            SearchDifficulty::Beginner => "beginner",
            SearchDifficulty::Junior => "junior",
            SearchDifficulty::Intermediate => "intermediate",
            SearchDifficulty::Senior => "senior",
            SearchDifficulty::Master => "master",
        }
    }

    /// The preset's name as shown to the player.
    pub fn label(self) -> (s: &'static str)
        ensures
            self == SearchDifficulty::Beginner ==> s@ == "入门"@,
            self == SearchDifficulty::Junior ==> s@ == "初级"@,
            self == SearchDifficulty::Intermediate ==> s@ == "中级"@,
            self == SearchDifficulty::Senior ==> s@ == "高级"@,
            self == SearchDifficulty::Master ==> s@ == "大师"@,
    {
        match self {
            SearchDifficulty::Beginner => "入门",
            SearchDifficulty::Junior => "初级",
            SearchDifficulty::Intermediate => "中级",
            SearchDifficulty::Senior => "高级",
            SearchDifficulty::Master => "大师",
        }
    }

    pub fn settings(self) -> (r: (i32, i32, bool))
        ensures
            r == difficulty_settings(self),
    {
        match self {
            SearchDifficulty::Beginner => (1, 10, false),
            SearchDifficulty::Junior => (2, 10, false),
            SearchDifficulty::Intermediate => (4, 20, false),
            SearchDifficulty::Senior => (6, 30, true),
            SearchDifficulty::Master => (8, 40, true),
        }
    }

    /// Puts the preset's depth and width into the root search defaults, its
    /// tactical switch into both threat searches and, for a tactical preset,
    /// the root VCT depth of 4.
    pub fn apply_to_config(self, config: &mut EngineSettings)
        ensures
            *final(config) == with_difficulty(*old(config), self),
    {
        let (depth, width, tactical) = self.settings();
        config.root_search.depth = depth;
        config.root_search.wide = width;
        config.root_search.timed_max_wide = width;
        config.runtime.compute_vcf = tactical;
        config.runtime.compute_vct = tactical;
        if tactical {
            config.runtime.root_vct_depth = PRESET_ROOT_VCT_DEPTH;
        }
    }

    /// The preset that the given settings match, if any.
    pub fn detect(depth: i32, width: i32, compute_vcf: bool, compute_vct: bool) -> (r: Option<SearchDifficulty>)
        ensures
            r == detected(depth, width, compute_vcf, compute_vct),
    {
        let presets: [SearchDifficulty; 5] = [
            SearchDifficulty::Beginner,
            SearchDifficulty::Junior,
            SearchDifficulty::Intermediate,
            SearchDifficulty::Senior,
            SearchDifficulty::Master,
        ];
        let mut i: usize = 0;
        while i < 5
            invariant
                i <= 5,
                presets@ == seq![
                    SearchDifficulty::Beginner,
                    SearchDifficulty::Junior,
                    SearchDifficulty::Intermediate,
                    SearchDifficulty::Senior,
                    SearchDifficulty::Master,
                ],
                forall|j: int|
                    0 <= j < i ==> {
                        let (sd, sw, st) = difficulty_settings(#[trigger] presets@[j]);
                        !(depth == sd && width == sw && compute_vcf == st && compute_vct == st)
                    },
            decreases 5 - i,
        {
            let d = presets[i];
            let (sd, sw, st) = d.settings();
            if depth == sd && width == sw && compute_vcf == st && compute_vct == st {
                return Some(d);
            }
            i = i + 1;
        }
        None
    }

    /// A preset by name, ignoring ASCII case, with the accepted aliases.
    pub fn parse(raw: &str) -> (r: Result<SearchDifficulty, String>)
        ensures
            ({
                let b = raw.spec_bytes();
                let beginner = matches_word(b, "beginner".spec_bytes()) || matches_word(b, "intro".spec_bytes());
                let junior = matches_word(b, "junior".spec_bytes()) || matches_word(b, "easy".spec_bytes());
                let intermediate = matches_word(b, "intermediate".spec_bytes()) || matches_word(
                    b,
                    "normal".spec_bytes(),
                ) || matches_word(b, "medium".spec_bytes());
                let senior = matches_word(b, "senior".spec_bytes()) || matches_word(b, "advanced".spec_bytes());
                let master = matches_word(b, "master".spec_bytes()) || matches_word(b, "hard".spec_bytes());
                &&& beginner ==> r == Ok::<SearchDifficulty, String>(SearchDifficulty::Beginner)
                &&& !beginner && junior ==> r == Ok::<SearchDifficulty, String>(SearchDifficulty::Junior)
                &&& !beginner && !junior && intermediate ==> r == Ok::<SearchDifficulty, String>(
                    SearchDifficulty::Intermediate,
                )
                &&& !beginner && !junior && !intermediate && senior ==> r == Ok::<SearchDifficulty, String>(
                    SearchDifficulty::Senior,
                )
                &&& !beginner && !junior && !intermediate && !senior && master ==> r == Ok::<
                    SearchDifficulty,
                    String,
                >(SearchDifficulty::Master)
                &&& !beginner && !junior && !intermediate && !senior && !master ==> (r matches Err(m) && m@
                    == "unknown search difficulty"@ + ": "@ + raw@)
            }),
    {
        if ascii_lower_eq(raw, "beginner") || ascii_lower_eq(raw, "intro") {
            Ok(SearchDifficulty::Beginner)
        } else if ascii_lower_eq(raw, "junior") || ascii_lower_eq(raw, "easy") {
            Ok(SearchDifficulty::Junior)
        } else if ascii_lower_eq(raw, "intermediate") || ascii_lower_eq(raw, "normal") || ascii_lower_eq(
            raw,
            "medium",
        ) {
            Ok(SearchDifficulty::Intermediate)
        } else if ascii_lower_eq(raw, "senior") || ascii_lower_eq(raw, "advanced") {
            Ok(SearchDifficulty::Senior)
        } else if ascii_lower_eq(raw, "master") || ascii_lower_eq(raw, "hard") {
            Ok(SearchDifficulty::Master)
        } else {
            Err(unknown_name_message("unknown search difficulty", raw))
        }
    }
}

impl std::str::FromStr for SearchDifficulty {
    type Err = String;

    fn from_str(raw: &str) -> (r: Result<Self, Self::Err>)
        ensures
            ({
                let b = raw.spec_bytes();
                let beginner = matches_word(b, "beginner".spec_bytes()) || matches_word(b, "intro".spec_bytes());
                let junior = matches_word(b, "junior".spec_bytes()) || matches_word(b, "easy".spec_bytes());
                let intermediate = matches_word(b, "intermediate".spec_bytes()) || matches_word(
                    b,
                    "normal".spec_bytes(),
                ) || matches_word(b, "medium".spec_bytes());
                let senior = matches_word(b, "senior".spec_bytes()) || matches_word(b, "advanced".spec_bytes());
                let master = matches_word(b, "master".spec_bytes()) || matches_word(b, "hard".spec_bytes());
                &&& beginner ==> r == Ok::<SearchDifficulty, String>(SearchDifficulty::Beginner)
                &&& !beginner && junior ==> r == Ok::<SearchDifficulty, String>(SearchDifficulty::Junior)
                &&& !beginner && !junior && intermediate ==> r == Ok::<SearchDifficulty, String>(
                    SearchDifficulty::Intermediate,
                )
                &&& !beginner && !junior && !intermediate && senior ==> r == Ok::<SearchDifficulty, String>(
                    SearchDifficulty::Senior,
                )
                &&& !beginner && !junior && !intermediate && !senior && master ==> r == Ok::<
                    SearchDifficulty,
                    String,
                >(SearchDifficulty::Master)
                &&& !beginner && !junior && !intermediate && !senior && !master ==> (r matches Err(m) && m@
                    == "unknown search difficulty"@ + ": "@ + raw@)
            }),
    {
        SearchDifficulty::parse(raw)
    }
}

#[derive(Clone, Debug, PartialEq, Eq, Structural)]
pub struct GameMoveSnapshot {
    pub x: usize,
    pub y: usize,
    pub side: i8,
    pub number: usize,
}

#[derive(Clone, Debug, PartialEq, Eq)]
pub struct ForbiddenPointSnapshot {
    pub x: usize,
    pub y: usize,
    pub kind: &'static str,
}

#[derive(Clone, Debug, PartialEq, Eq)]
pub struct GameParamsSnapshot {
    pub mode: &'static str,
    pub profile: &'static str,
    pub difficulty: &'static str,
    pub depth: i32,
    pub width: usize,
    pub compute_vcf: bool,
    pub root_vcf_depth: i32,
    pub opponent_vcf_depth: i32,
    pub compute_vct: bool,
    pub root_vct_depth: i32,
    pub overlap_vct_alphabeta: bool,
    pub fast_history_ordering: bool,
    pub static_board: bool,
    pub dynamic_board_margin: i32,
    pub rule: &'static str,
}

/// The name of a forbidden kind as shown to the player.
pub fn forbidden_name(kind: ForbiddenKind) -> (s: &'static str)
    ensures
        kind == ForbiddenKind::NotForbidden ==> s@ == "无"@,
        kind == ForbiddenKind::DoubleThree ==> s@ == "三三禁手"@,
        kind == ForbiddenKind::DoubleFour ==> s@ == "四四禁手"@,
        kind == ForbiddenKind::Overline ==> s@ == "长连禁手"@,
{
    match kind {
        ForbiddenKind::NotForbidden => "无",
        ForbiddenKind::DoubleThree => "三三禁手",
        ForbiddenKind::DoubleFour => "四四禁手",
        ForbiddenKind::Overline => "长连禁手",
    }
}

/// The code of a forbidden kind in snapshots.
pub fn forbidden_code(kind: ForbiddenKind) -> (s: &'static str)
    ensures
        kind == ForbiddenKind::NotForbidden ==> s@ == "none"@,
        kind == ForbiddenKind::DoubleThree ==> s@ == "double_three"@,
        kind == ForbiddenKind::DoubleFour ==> s@ == "double_four"@,
        kind == ForbiddenKind::Overline ==> s@ == "overline"@,
        s@ == crate::referee::kind_code(kind),
{
    match kind {
        ForbiddenKind::NotForbidden => "none",
        ForbiddenKind::DoubleThree => "double_three",
        ForbiddenKind::DoubleFour => "double_four",
        ForbiddenKind::Overline => "overline",
    }
}

/// The board's cells row by row.
pub fn board_cells(board: &Board) -> (cells: Vec<i8>)
    requires
        board.wf(),
    ensures
        cells@ == board@.cells,
{
    let mut cells: Vec<i8> = Vec::new();
    let mut k: usize = 0;
    while k < BOARD_AREA
        invariant
            board.wf(),
            k <= BOARD_AREA,
            board@.cells.len() == BOARD_AREA,
            cells@ == board@.cells.subrange(0, k as int),
        decreases BOARD_AREA - k,
    {
        cells.push(board.cell_value(k % 15, k / 15));
        k = k + 1;
        assert(cells@ =~= board@.cells.subrange(0, k as int));
    }
    assert(cells@ =~= board@.cells);
    cells
}

pub open spec fn move_record(history: Seq<PlayedMove>, i: int) -> GameMoveSnapshot {
    GameMoveSnapshot {
        x: (history[i].move_ % 15) as usize,
        y: (history[i].move_ / 15) as usize,
        side: history[i].side,
        number: (i + 1) as usize,
    }
}

/// The moves played, numbered from one.
pub fn move_snapshots(board: &Board) -> (moves: Vec<GameMoveSnapshot>)
    requires
        board.wf(),
    ensures
        moves@.len() == board@.history.len(),
        forall|i: int| 0 <= i < moves@.len() ==> #[trigger] moves@[i] == move_record(board@.history, i),
{
    let history = board.move_history();
    let mut moves: Vec<GameMoveSnapshot> = Vec::new();
    let mut i: usize = 0;
    while i < history.len()
        invariant
            board.wf(),
            history@ == board@.history,
            i <= history@.len(),
            moves@.len() == i,
            forall|j: int| 0 <= j < i ==> #[trigger] moves@[j] == move_record(history@, j),
        decreases history@.len() - i,
    {
        let played = history[i];
        assert(played.move_ < BOARD_AREA);
        moves.push(
            GameMoveSnapshot {
                x: (played.move_ % 15) as usize,
                y: (played.move_ / 15) as usize,
                side: played.side,
                number: i + 1,
            },
        );
        i = i + 1;
    }
    moves
}

/// The point of the last move played, if any.
pub fn last_move_xy(board: &Board) -> (r: Option<(usize, usize)>)
    requires
        board.wf(),
    ensures
        board@.history.len() == 0 ==> r.is_none(),
        board@.history.len() > 0 ==> r == Some(
            (
                (board@.history.last().move_ % 15) as usize,
                (board@.history.last().move_ / 15) as usize,
            ),
        ),
{
    let history = board.move_history();
    if history.len() == 0 {
        return None;
    }
    let played = history[history.len() - 1];
    assert(played.move_ < BOARD_AREA);
    Some(((played.move_ % 15) as usize, (played.move_ / 15) as usize))
}

/// Point `k` is a forbidden point for black under Renju.
pub open spec fn shown_forbidden(bm: BoardModel, k: int) -> bool {
    classify_spec(bm.cells, k as Move, BLACK, RuleSet::Renju) matches Ok(kind) && kind
        != ForbiddenKind::NotForbidden
}

/// The forbidden points among the first `k`, in increasing order.
pub open spec fn forbidden_upto(bm: BoardModel, k: int) -> Seq<int>
    decreases k,
{
    if k <= 0 {
        Seq::empty()
    } else if shown_forbidden(bm, k - 1) {
        forbidden_upto(bm, k - 1).push(k - 1)
    } else {
        forbidden_upto(bm, k - 1)
    }
}

pub open spec fn code_of(kind: ForbiddenKind) -> Seq<char> {
    match kind {
        ForbiddenKind::NotForbidden => "none"@,
        ForbiddenKind::DoubleThree => "double_three"@,
        ForbiddenKind::DoubleFour => "double_four"@,
        ForbiddenKind::Overline => "overline"@,
    }
}

/// The snapshot of forbidden point `k`.
pub open spec fn shows_point(p: ForbiddenPointSnapshot, bm: BoardModel, k: int) -> bool {
    &&& p.x == k % 15
    &&& p.y == k / 15
    &&& classify_spec(bm.cells, k as Move, BLACK, RuleSet::Renju) matches Ok(kind) && p.kind@ == code_of(kind)
}

/// The forbidden points to show: under Renju with black to move and no
/// winner yet, every point black may not play, row by row; none otherwise.
#[verifier::rlimit(40)]
pub fn visible_forbidden_points(board: &Board, rule: RuleSet) -> (points: Vec<ForbiddenPointSnapshot>)
    requires
        board.wf(),
    ensures
        rule != RuleSet::Renju || board@.side_to_move != BLACK || board@.winner != EMPTY ==> points@.len()
            == 0,
        rule == RuleSet::Renju && board@.side_to_move == BLACK && board@.winner == EMPTY ==> {
            let ks = forbidden_upto(board@, BOARD_AREA as int);
            &&& points@.len() == ks.len()
            &&& forall|i: int| 0 <= i < ks.len() ==> shows_point(#[trigger] points@[i], board@, ks[i])
        },
{
    let mut points: Vec<ForbiddenPointSnapshot> = Vec::new();
    if !matches!(rule, RuleSet::Renju) || board.side_to_move() != BLACK || board.winner() != EMPTY {
        return points;
    }
    let mut k: usize = 0;
    while k < BOARD_AREA
        invariant
            board.wf(),
            k <= BOARD_AREA,
            points@.len() == forbidden_upto(board@, k as int).len(),
            forall|i: int|
                0 <= i < points@.len() ==> shows_point(
                    #[trigger] points@[i],
                    board@,
                    forbidden_upto(board@, k as int)[i],
                ),
        decreases BOARD_AREA - k,
    {
        let x = k % 15;
        let y = k / 15;
        let move_ = k as Move;
        let ghost before = forbidden_upto(board@, k as int);
        match board.forbidden_kind_for_rule(move_, BLACK, RuleSet::Renju) {
            Ok(kind) => {
                if kind.is_forbidden() {
                    points.push(ForbiddenPointSnapshot { x, y, kind: forbidden_code(kind) });
                    assert(forbidden_upto(board@, k + 1) == before.push(k as int));
                }
            },
            Err(_) => {},
        }
        k = k + 1;
    }
    points
}

} // verus!
