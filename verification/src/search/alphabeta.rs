//! Alpha-beta search support: terminal scores, corner detection and root
//! bonuses, and the search statistics record.
use vstd::prelude::*;

use std::sync::atomic::AtomicBool;
use std::sync::Arc;
use std::time::Instant;

use crate::board::Board;
use crate::constants::INF;
use crate::types::{Move, PlayedMove, Side};

verus! {

#[derive(Clone, Debug, PartialEq, Eq)]
pub struct RootCandidateProfile {
    pub index: usize,
    pub move_: Move,
    pub order_score: i32,
    pub self_attack: i32,
    pub opp_attack: i32,
    pub depthdown_milli: i32,
    pub atdown: i32,
    pub attempt_depth_milli: i32,
    pub score: i32,
    pub nodes: usize,
    pub elapsed_us: u128,
    pub alpha_before: i32,
    pub alpha_after: i32,
    pub beta: i32,
    pub reason: &'static str,
}

#[derive(Clone, Debug)]
pub struct SearchStats {
    pub nodes: usize,
    pub leaf_nodes: usize,
    pub tt_hits: usize,
    pub cutoffs: usize,
    pub stop: bool,
    pub node_limit: Option<usize>,
    pub deadline: Option<Instant>,
    pub time_check_mask: usize,
    pub root_profile: bool,
    pub root_candidates: Vec<RootCandidateProfile>,
    pub cancel: Option<Arc<AtomicBool>>,
    pub fast_history_ordering: bool,
    pub killer_hits: usize,
    pub history_hits: usize,
    pub killer_updates: usize,
    pub history_updates: usize,
    pub tt_bestmove_current_generation: usize,
    pub tt_bestmove_old_generation: usize,
}

impl Default for SearchStats {
    fn default() -> (s: Self)
        ensures
            s.nodes == 0,
            s.leaf_nodes == 0,
            s.tt_hits == 0,
            s.cutoffs == 0,
            !s.stop,
            s.node_limit.is_none(),
            s.deadline.is_none(),
            s.time_check_mask == 0xFF,
            !s.root_profile,
            s.root_candidates@.len() == 0,
            s.cancel.is_none(),
            !s.fast_history_ordering,
            s.killer_hits == 0,
            s.history_hits == 0,
            s.killer_updates == 0,
            s.history_updates == 0,
            s.tt_bestmove_current_generation == 0,
            s.tt_bestmove_old_generation == 0,
    {
        SearchStats {
            nodes: 0,
            leaf_nodes: 0,
            tt_hits: 0,
            cutoffs: 0,
            stop: false,
            node_limit: None,
            deadline: None,
            time_check_mask: 0xFF,
            root_profile: false,
            root_candidates: Vec::new(),
            cancel: None,
            fast_history_ordering: false,
            killer_hits: 0,
            history_hits: 0,
            killer_updates: 0,
            history_updates: 0,
            tt_bestmove_current_generation: 0,
            tt_bestmove_old_generation: 0,
        }
    }
}

/// The score of a finished game for `side` at `ply`: a win is worth more the
/// sooner it comes, a loss less the later it comes; none while play goes on.
pub open spec fn terminal_spec(winner: Side, side: Side, ply: int) -> Option<int> {
    if winner == 0 {
        None
    } else if winner == side {
        Some(INF - ply)
    } else {
        Some(-INF + ply)
    }
}

pub fn terminal_score(board: &Board, side: Side, ply: i32) -> (r: Option<i32>)
    requires
        ply >= INF - i32::MAX,
    ensures
        r.is_none() == terminal_spec(board@.winner, side, ply as int).is_none(),
        r matches Some(v) ==> Some(v as int) == terminal_spec(board@.winner, side, ply as int),
{
    if board.winner() == 0 {
        return None;
    }
    if board.winner() == side {
        return Some(INF - ply);
    }
    Some(-INF + ply)
}

/// How far a point is from the nearest edge.
pub open spec fn height(x: int, y: int) -> int {
    let a = if x < y {
        x
    } else {
        y
    };
    let b = if 14 - x < 14 - y {
        14 - x
    } else {
        14 - y
    };
    if a < b {
        a
    } else {
        b
    }
}

/// The corner scan over the first `k` moves played: it stops at a move on
/// the two outer rings, or at the second move on the third ring.
pub open spec fn corner_scan(history: Seq<PlayedMove>, k: int) -> (bool, int)
    decreases k,
{
    if k <= 0 {
        (false, 0)
    } else {
        let (done, half) = corner_scan(history, k - 1);
        if done {
            (done, half)
        } else {
            let m = history[k - 1].move_ as int;
            let h = height(m % 15, m / 15);
            if h <= 1 {
                (true, half)
            } else if h == 2 {
                (half + 1 >= 2, half + 1)
            } else {
                (false, half)
            }
        }
    }
}

fn height_exec(x: usize, y: usize) -> (h: usize)
    requires
        x < 15,
        y < 15,
    ensures
        h == height(x as int, y as int),
        h <= 7,
{
    let a = if x < y {
        x
    } else {
        y
    };
    let b = if 14 - x < 14 - y {
        14 - x
    } else {
        14 - y
    };
    if a < b {
        a
    } else {
        b
    }
}

/// Whether play has reached the edge area, and how many third-ring moves
/// were seen up to that point.
pub fn compute_corner_state(board: &Board) -> (r: (bool, i32))
    requires
        board.wf(),
    ensures
        r.0 == corner_scan(board@.history, board@.history.len() as int).0,
        r.1 == corner_scan(board@.history, board@.history.len() as int).1,
{
    let history = board.move_history();
    let mut half: i32 = 0;
    let mut i: usize = 0;
    while i < history.len()
        invariant
            board.wf(),
            history@ == board@.history,
            i <= history@.len(),
            corner_scan(history@, i as int) == (false, half as int),
            0 <= half <= 1,
        decreases history@.len() - i,
    {
        let played = history[i];
        assert(played.move_ < 225);
        let mx = (played.move_ % 15) as usize;
        let my = (played.move_ / 15) as usize;
        let h = height_exec(mx, my);
        if h <= 1 {
            proof {
                lemma_corner_scan_stops(history@, i as int + 1, history@.len() as int);
            }
            return (true, half);
        }
        if h == 2 {
            half = half + 1;
            if half >= 2 {
                proof {
                    lemma_corner_scan_stops(history@, i as int + 1, history@.len() as int);
                }
                return (true, half);
            }
        }
        i = i + 1;
    }
    (false, half)
}

/// Once the scan has stopped, later moves change nothing.
proof fn lemma_corner_scan_stops(history: Seq<PlayedMove>, k: int, n: int)
    requires
        0 <= k <= n,
        corner_scan(history, k).0,
    ensures
        corner_scan(history, n) == corner_scan(history, k),
    decreases n - k,
{
    if k < n {
        lemma_corner_scan_stops(history, k, n - 1);
    }
}

/// The stones and edges around `(x, y)`: stones in the 3x3 square, plus three
/// for each board edge the square touches, minus the shared corner.
pub open spec fn neighbourhood(cells: Seq<Side>, x: int, y: int) -> int {
    let xs = if x == 0 {
        0int
    } else {
        x - 1
    };
    let xe = if x + 1 < 14 {
        x + 1
    } else {
        14
    };
    let ys = if y == 0 {
        0int
    } else {
        y - 1
    };
    let ye = if y + 1 < 14 {
        y + 1
    } else {
        14
    };
    let x_edge = (if x == 0 {
        1int
    } else {
        0
    }) + (if x + 1 >= 15 {
        1int
    } else {
        0
    });
    let y_edge = (if y == 0 {
        1int
    } else {
        0
    }) + (if y + 1 >= 15 {
        1int
    } else {
        0
    });
    stones_in(cells, xs, xe, ys, ye, xs) + 3 * x_edge + 3 * y_edge - x_edge * y_edge
}

/// The stones in columns `xx..=xe` of rows `ys..=ye`.
pub open spec fn stones_in(cells: Seq<Side>, xs: int, xe: int, ys: int, ye: int, xx: int) -> int
    decreases xe + 1 - xx, 0int,
{
    if xx > xe {
        0
    } else {
        stones_in_column(cells, xx, ys, ye, ys) + stones_in(cells, xs, xe, ys, ye, xx + 1)
    }
}

pub open spec fn stones_in_column(cells: Seq<Side>, xx: int, ys: int, ye: int, yy: int) -> int
    decreases ye + 1 - yy,
{
    if yy > ye {
        0
    } else {
        (if cells[yy * 15 + xx] != 0 {
            1int
        } else {
            0
        }) + stones_in_column(cells, xx, ys, ye, yy + 1)
    }
}

/// The corner-mode bonus: `4, 3, 2, 1` by height, plus the rounded
/// seven-tenths of the neighbourhood count above two, capped at six.
pub open spec fn corner_bonus(h: int, count: int) -> int {
    let base = if h == 0 {
        4int
    } else if h == 1 {
        3
    } else if h == 2 {
        2
    } else if h == 3 {
        1
    } else {
        0
    };
    let c = if count > 8 {
        8
    } else {
        count
    };
    let extra = if c <= 2 {
        0int
    } else if c <= 4 {
        1
    } else if c == 5 {
        2
    } else if c == 6 {
        3
    } else {
        4
    };
    base + extra
}

/// The root bonus of `(x, y)`: in corner mode the height and neighbourhood
/// bonus, otherwise `8, 4, 2, 1` for the four outer rings.
pub open spec fn rootbonus_spec(cells: Seq<Side>, x: int, y: int, is_corner: bool) -> int {
    let h = height(x, y);
    if is_corner {
        corner_bonus(h, neighbourhood(cells, x, y))
    } else if h == 0 {
        8
    } else if h == 1 {
        4
    } else if h == 2 {
        2
    } else if h == 3 {
        1
    } else {
        0
    }
}

fn column_stones(board: &Board, xx: usize, ys: usize, ye: usize) -> (n: usize)
    requires
        board.wf(),
        xx < 15,
        ys <= ye < 15,
    ensures
        n == stones_in_column(board@.cells, xx as int, ys as int, ye as int, ys as int),
        n <= ye - ys + 1,
{
    let mut n: usize = 0;
    let mut yy: usize = ye + 1;
    while yy > ys
        invariant
            board.wf(),
            xx < 15,
            ys <= yy <= ye + 1,
            ye < 15,
            n == stones_in_column(board@.cells, xx as int, ys as int, ye as int, yy as int),
            n <= ye + 1 - yy,
        decreases yy,
    {
        yy = yy - 1;
        if board.cell_value(xx, yy) != 0 {
            n = n + 1;
        }
    }
    n
}

/// The root bonus of `(x, y)`.
pub fn rootbonus(board: &Board, x: usize, y: usize, is_corner: bool) -> (b: i32)
    requires
        board.wf(),
        x < 15,
        y < 15,
    ensures
        b == rootbonus_spec(board@.cells, x as int, y as int, is_corner),
{
    let h = height_exec(x, y);
    if is_corner {
        let xs = if x == 0 {
            0
        } else {
            x - 1
        };
        let xe = if x + 1 < 14 {
            x + 1
        } else {
            14
        };
        let ys = if y == 0 {
            0
        } else {
            y - 1
        };
        let ye = if y + 1 < 14 {
            y + 1
        } else {
            14
        };
        let mut count: usize = 0;
        let mut xx: usize = xe + 1;
        while xx > xs
            invariant
                board.wf(),
                xs <= xx <= xe + 1,
                xe < 15,
                ys <= ye < 15,
                count == stones_in(board@.cells, xs as int, xe as int, ys as int, ye as int, xx as int),
                count <= 3 * (xe + 1 - xx),
                ye - ys <= 2,
            decreases xx,
        {
            xx = xx - 1;
            let c = column_stones(board, xx, ys, ye);
            count = count + c;
        }
        let x_edge: usize = (if x == 0 {
            1
        } else {
            0
        }) + (if x + 1 >= 15 {
            1
        } else {
            0
        });
        let y_edge: usize = (if y == 0 {
            1
        } else {
            0
        }) + (if y + 1 >= 15 {
            1
        } else {
            0
        });
        assert(x_edge <= 1 && y_edge <= 1);
        assert(x_edge * y_edge <= x_edge && x_edge * y_edge <= 1) by (nonlinear_arith)
            requires
                x_edge <= 1,
                y_edge <= 1,
        ;
        count = count + 3 * x_edge + 3 * y_edge - x_edge * y_edge;
        let base: i32 = if h == 0 {
            4
        } else if h == 1 {
            3
        } else if h == 2 {
            2
        } else if h == 3 {
            1
        } else {
            0
        };
        let c = if count > 8 {
            8
        } else {
            count
        };
        let extra: i32 = if c <= 2 {
            0
        } else if c <= 4 {
            1
        } else if c == 5 {
            2
        } else if c == 6 {
            3
        } else {
            4
        };
        return base + extra;
    }
    if h == 0 {
        8
    } else if h == 1 {
        4
    } else if h == 2 {
        2
    } else if h == 3 {
        1
    } else {
        0
    }
}

} // verus!
