//! Directional lines and the pattern scans over them.
//!
//! A line holds `BOARD_SIZE + 4` cells: two sentinel cells on each side and
//! the board points in between (`cells[i + 2]` is point `i`). Points of a
//! diagonal that fall off the board hold the sentinel too.
use vstd::prelude::*;

use crate::board::Board;
use crate::constants::{BOARD_AREA, BOARD_SIZE};
use crate::patterns::shapes::{DIAGONAL_DOWN, DIAGONAL_UP, HORIZONTAL, VERTICAL};
use crate::types::Side;

verus! {

pub const SENTINEL: i32 = 1024;

pub const LINE_CELLS: usize = 19;

#[derive(Clone, Copy, Debug, PartialEq, Eq, Structural)]
pub enum PatternError {
    InvalidDirection(i32),
}

pub fn line_backend_name() -> (name: &'static str)
    ensures
        name@ == "python"@,
{
    "python"
}

/// A line value: a stone value or the sentinel.
pub open spec fn line_value(v: i32) -> bool {
    v == 1 || v == -1 || v == 0 || v == SENTINEL
}

/// The layout every scan expects: nineteen cells with sentinels at both ends.
pub open spec fn line_cells_ok(s: Seq<i32>) -> bool {
    &&& s.len() == LINE_CELLS
    &&& forall|k: int| 0 <= k < LINE_CELLS ==> line_value(#[trigger] s[k])
    &&& s[0] == SENTINEL
    &&& s[1] == SENTINEL
    &&& s[17] == SENTINEL
    &&& s[18] == SENTINEL
}

/// Encodes line index `y` (cell index, point `y - 2`) after the prefix `x`.
pub open spec fn comb_spec(x: int, y: int) -> int {
    x * 256 + (y - 2)
}

fn comb(x: i32, y: usize) -> (r: i32)
    requires
        0 <= x < 0x7F_0000,
        2 <= y < 18,
    ensures
        r == comb_spec(x as int, y as int),
{
    x * 256 + (y as i32 - 2)
}

fn comc(x: i32, y: usize, z: usize) -> (r: i32)
    requires
        0 <= x < 0x7E00,
        2 <= y < 18,
        2 <= z < 18,
    ensures
        r == comb_spec(comb_spec(x as int, y as int), z as int),
{
    comb(comb(x, y), z)
}

fn comd(x: i32, y: usize, z: usize, w: usize) -> (r: i32)
    requires
        0 <= x < 0x7D,
        2 <= y < 18,
        2 <= z < 18,
        2 <= w < 18,
    ensures
        r == comb_spec(comb_spec(comb_spec(x as int, y as int), z as int), w as int),
{
    comb(comc(x, y, z), w)
}

pub open spec fn sum4(s: Seq<i32>, i: int) -> int {
    s[i] + s[i + 1] + s[i + 2] + s[i + 3]
}

pub open spec fn sum5(s: Seq<i32>, i: int) -> int {
    sum4(s, i) + s[i + 4]
}

pub open spec fn sum6(s: Seq<i32>, i: int) -> int {
    sum5(s, i) + s[i + 5]
}

pub open spec fn max2(p: int, back: int) -> int {
    if p - back >= 2 {
        p - back
    } else {
        2
    }
}

pub open spec fn min_to(p: int, hi: int) -> int {
    if p <= hi {
        p
    } else {
        hi
    }
}

// ----- open four (a4) --------------------------------------------------------

pub open spec fn a4_window(s: Seq<i32>, i: int, x0: int) -> bool {
    sum4(s, i) == 4 * x0 && s[i - 1] == 0 && s[i + 4] == 0
}

/// 1 when some window of four through point `pi` holds four stones of its
/// colour with both ends empty.
pub open spec fn a4_spec(s: Seq<i32>, pi: int) -> int {
    let p = pi + 2;
    let x0 = s[p] as int;
    if x0 == 0 {
        0
    } else if exists|i: int| max2(p, 3) <= i <= min_to(p, 13) && a4_window(s, i, x0) {
        1
    } else {
        0
    }
}

pub fn scan_a4(cells: &[i32], point_index: usize) -> (r: i32)
    requires
        line_cells_ok(cells@),
        point_index < BOARD_SIZE,
    ensures
        r == a4_spec(cells@, point_index as int),
{
    let ghost s = cells@;
    let p = point_index + 2;
    let x0 = cells[p];
    if x0 == 0 {
        return 0;
    }
    let xmin = if p >= 5 {
        p - 3
    } else {
        2
    };
    let xmax = if p <= 13 {
        p
    } else {
        13
    };
    let mut i = xmin;
    while i <= xmax
        invariant
            line_cells_ok(s),
            s == cells@,
            p == point_index + 2,
            x0 == s[p as int],
            x0 != 0,
            xmin == max2(p as int, 3),
            xmax == min_to(p as int, 13),
            xmin <= i <= xmax + 1,
            forall|j: int| xmin <= j < i ==> !a4_window(s, j, x0 as int),
        decreases xmax + 1 - i,
    {
        if cells[i] + cells[i + 1] + cells[i + 2] + cells[i + 3] == 4 * x0 && cells[i - 1] == 0
            && cells[i + 4] == 0 {
            assert(a4_window(s, i as int, x0 as int));
            return 1;
        }
        i = i + 1;
    }
    0
}

// ----- overline (a6) ---------------------------------------------------------

/// 1 when the black stone at point `pi` lies in a window of six black stones.
pub open spec fn a6_spec(s: Seq<i32>, pi: int) -> int {
    let p = pi + 2;
    if s[p] != 1 {
        0
    } else if exists|i: int| max2(p, 5) <= i <= min_to(p, 11) && sum6(s, i) == 6 {
        1
    } else {
        0
    }
}

pub fn scan_a6(cells: &[i32], point_index: usize) -> (r: i32)
    requires
        line_cells_ok(cells@),
        point_index < BOARD_SIZE,
    ensures
        r == a6_spec(cells@, point_index as int),
{
    let ghost s = cells@;
    let p = point_index + 2;
    if cells[p] != 1 {
        return 0;
    }
    let xmin = if p >= 7 {
        p - 5
    } else {
        2
    };
    let xmax = if p <= 11 {
        p
    } else {
        11
    };
    let mut i = xmin;
    while i <= xmax
        invariant
            line_cells_ok(s),
            s == cells@,
            p == point_index + 2,
            xmin == max2(p as int, 5),
            xmax == min_to(p as int, 11),
            xmin <= i <= xmax + 1,
            forall|j: int| xmin <= j < i ==> sum6(s, j) != 6,
        decreases xmax + 1 - i,
    {
        if cells[i] + cells[i + 1] + cells[i + 2] + cells[i + 3] + cells[i + 4] + cells[i + 5]
            == 6 {
            assert(sum6(s, i as int) == 6);
            return 1;
        }
        i = i + 1;
    }
    0
}

// ----- five (a5) -------------------------------------------------------------

/// 1 when the stone at point `pi` lies in a window of five stones of its colour.
pub open spec fn a5_spec(s: Seq<i32>, pi: int) -> int {
    let p = pi + 2;
    let x0 = s[p] as int;
    if x0 == 0 {
        0
    } else if exists|i: int| max2(p, 4) <= i <= min_to(p, 12) && sum5(s, i) == 5 * x0 {
        1
    } else {
        0
    }
}

pub fn scan_a5(cells: &[i32], point_index: usize) -> (r: i32)
    requires
        line_cells_ok(cells@),
        point_index < BOARD_SIZE,
    ensures
        r == a5_spec(cells@, point_index as int),
{
    let ghost s = cells@;
    let p = point_index + 2;
    let x0 = cells[p];
    if x0 == 0 {
        return 0;
    }
    let xmin = if p >= 6 {
        p - 4
    } else {
        2
    };
    let xmax = if p <= 12 {
        p
    } else {
        12
    };
    let mut i = xmin;
    while i <= xmax
        invariant
            line_cells_ok(s),
            s == cells@,
            p == point_index + 2,
            x0 == s[p as int],
            x0 != 0,
            xmin == max2(p as int, 4),
            xmax == min_to(p as int, 12),
            xmin <= i <= xmax + 1,
            forall|j: int| xmin <= j < i ==> sum5(s, j) != 5 * x0,
        decreases xmax + 1 - i,
    {
        if cells[i] + cells[i + 1] + cells[i + 2] + cells[i + 3] + cells[i + 4] == 5 * x0 {
            assert(sum5(s, i as int) == 5 * x0);
            return 1;
        }
        i = i + 1;
    }
    0
}

// ----- fours (b4 / b4p) --------------------------------------------------------

/// The five-cell pattern of window `i` read as a binary number for colour `x0`
/// (black stones of that colour as ones).
pub open spec fn shape5(s: Seq<i32>, i: int, x0: int) -> int {
    let raw = s[i] * 16 + s[i + 1] * 8 + s[i + 2] * 4 + s[i + 3] * 2 + s[i + 4];
    if x0 == -1 {
        -raw
    } else {
        raw
    }
}

/// The verdict of the four scan at window `i`; 0 lets the scan go on.
pub open spec fn b4_window(s: Seq<i32>, p: int, i: int, x0: int) -> int {
    if sum5(s, i) != 4 * x0 {
        0
    } else {
        let shape = shape5(s, i, x0);
        if shape == 0x1E || shape == 0x0F {
            1
        } else if shape == 0x1D {
            if i <= 8 && s[i + 5] == 0 && s[i + 6] == x0 && s[i + 7] == x0 && s[i + 8] == x0 && p
                == i + 4 {
                2
            } else {
                1
            }
        } else if shape == 0x1B {
            if i <= 9 && s[i + 5] == 0 && s[i + 6] == x0 && s[i + 7] == x0 && (p == i + 4 || p == i
                + 3) {
                2
            } else {
                1
            }
        } else if shape == 0x17 {
            if i <= 10 && s[i + 5] == 0 && s[i + 6] == x0 && (p == i + 4 || p == i + 3 || p == i
                + 2) {
                2
            } else {
                1
            }
        } else {
            0
        }
    }
}

/// The first nonzero verdict among windows `i..=hi` (0 when none).
pub open spec fn first_b4(s: Seq<i32>, p: int, i: int, hi: int, x0: int) -> int
    decreases hi + 1 - i,
{
    if i > hi {
        0
    } else if b4_window(s, p, i, x0) != 0 {
        b4_window(s, p, i, x0)
    } else {
        first_b4(s, p, i + 1, hi, x0)
    }
}

/// Number of fours through point `pi`: 1 for a four, 2 for a broken four that
/// also completes a second five; 0 when there is none.
pub open spec fn b4_spec(s: Seq<i32>, pi: int) -> int {
    let p = pi + 2;
    let x0 = s[p] as int;
    if x0 == 0 {
        0
    } else {
        first_b4(s, p, max2(p, 4), min_to(p, 12), x0)
    }
}

fn shape5_exec(cells: &[i32], i: usize, x0: i32) -> (shape: i32)
    requires
        line_cells_ok(cells@),
        2 <= i <= 12,
        x0 == 1 || x0 == -1,
        sum5(cells@, i as int) == 4 * x0,
    ensures
        shape == shape5(cells@, i as int, x0 as int),
        -31 <= shape <= 31,
{
    proof {
        lemma_window_small(cells@, i as int, 5);
    }
    let raw = cells[i] * 16 + cells[i + 1] * 8 + cells[i + 2] * 4 + cells[i + 3] * 2 + cells[i
        + 4];
    if x0 == -1 {
        -raw
    } else {
        raw
    }
}

/// A window whose sum is a small multiple of a colour holds no sentinel.
proof fn lemma_window_small(s: Seq<i32>, i: int, k: int)
    requires
        line_cells_ok(s),
        2 <= i,
        i + k <= 19,
        k == 4 || k == 5,
        k == 4 ==> -4 <= sum4(s, i) <= 4,
        k == 5 ==> -5 <= sum5(s, i) <= 5,
    ensures
        forall|j: int| i <= j < i + k ==> -1 <= #[trigger] s[j] <= 1,
{
    assert(line_value(s[i]));
    assert(line_value(s[i + 1]));
    assert(line_value(s[i + 2]));
    assert(line_value(s[i + 3]));
    if k == 5 {
        assert(line_value(s[i + 4]));
    }
}

pub fn scan_b4(cells: &[i32], point_index: usize) -> (r: i32)
    requires
        line_cells_ok(cells@),
        point_index < BOARD_SIZE,
    ensures
        r == b4_spec(cells@, point_index as int),
{
    let ghost s = cells@;
    let p = point_index + 2;
    let x0 = cells[p];
    if x0 == 0 {
        return 0;
    }
    proof {
        assert(line_value(s[p as int]));
    }
    if x0 == SENTINEL {
        // A sentinel point is never the point of a stone; no window sums to 4096.
        proof {
            assert forall|j: int| max2(p as int, 4) <= j <= min_to(p as int, 12) implies
                b4_window(s, p as int, j, x0 as int) == 0 by {
                assert(line_value(s[j]) && line_value(s[j + 1]) && line_value(s[j + 2])
                    && line_value(s[j + 3]) && line_value(s[j + 4]));
            }
            lemma_first_b4_zero(s, p as int, max2(p as int, 4), min_to(p as int, 12), x0 as int);
        }
        return 0;
    }
    let xmin = if p >= 6 {
        p - 4
    } else {
        2
    };
    let xmax = if p <= 12 {
        p
    } else {
        12
    };
    let mut i = xmin;
    while i <= xmax
        invariant
            line_cells_ok(s),
            s == cells@,
            p == point_index + 2,
            x0 == s[p as int],
            x0 == 1 || x0 == -1,
            xmin == max2(p as int, 4),
            xmax == min_to(p as int, 12),
            xmin <= i <= xmax + 1,
            first_b4(s, p as int, xmin as int, xmax as int, x0 as int) == first_b4(
                s,
                p as int,
                i as int,
                xmax as int,
                x0 as int,
            ),
        decreases xmax + 1 - i,
    {
        if cells[i] + cells[i + 1] + cells[i + 2] + cells[i + 3] + cells[i + 4] == 4 * x0 {
            let shape = shape5_exec(cells, i, x0);
            if shape == 0x1E || shape == 0x0F {
                return 1;
            }
            if shape == 0x1D {
                if i <= 8 && cells[i + 5] == 0 && cells[i + 6] == x0 && cells[i + 7] == x0
                    && cells[i + 8] == x0 && p == i + 4 {
                    return 2;
                }
                return 1;
            }
            if shape == 0x1B {
                if i <= 9 && cells[i + 5] == 0 && cells[i + 6] == x0 && cells[i + 7] == x0 && (p
                    == i + 4 || p == i + 3) {
                    return 2;
                }
                return 1;
            }
            if shape == 0x17 {
                if i <= 10 && cells[i + 5] == 0 && cells[i + 6] == x0 && (p == i + 4 || p == i + 3
                    || p == i + 2) {
                    return 2;
                }
                return 1;
            }
        }
        i = i + 1;
    }
    0
}

proof fn lemma_first_b4_zero(s: Seq<i32>, p: int, i: int, hi: int, x0: int)
    requires
        forall|j: int| i <= j <= hi ==> b4_window(s, p, j, x0) == 0,
    ensures
        first_b4(s, p, i, hi, x0) == 0,
    decreases hi + 1 - i,
{
    if i <= hi {
        lemma_first_b4_zero(s, p, i + 1, hi, x0);
    }
}

/// The encoded reply points of the four scan at window `i`; 0 lets the scan go on.
pub open spec fn b4p_window(s: Seq<i32>, p: int, i: int, x0: int) -> int {
    if sum5(s, i) != 4 * x0 {
        0
    } else {
        let shape = shape5(s, i, x0);
        if shape == 0x1E {
            if s[i - 1] == 0 {
                comb_spec(comb_spec(1, i - 1), i + 4)
            } else {
                comb_spec(1, i + 4)
            }
        } else if shape == 0x1D {
            if i <= 8 && s[i + 5] == x0 && s[i + 6] == x0 && s[i + 7] == x0 && p == i + 4 && s[i
                + 3] == 0 {
                comb_spec(comb_spec(1, i + 3), i + 5)
            } else if s[i + 3] == 0 {
                comb_spec(1, i + 3)
            } else {
                0
            }
        } else if shape == 0x1B {
            if i <= 9 && s[i + 5] == 0 && s[i + 6] == x0 && s[i + 7] == x0 && (p == i + 4 || p == i
                + 3) && s[i + 2] == 0 {
                comb_spec(comb_spec(1, i + 2), i + 5)
            } else if s[i + 2] == 0 {
                comb_spec(1, i + 2)
            } else {
                0
            }
        } else if shape == 0x17 {
            if i <= 10 && s[i + 5] == 0 && s[i + 6] == x0 && (p == i + 4 || p == i + 3 || p == i
                + 2) && s[i + 1] == 0 {
                comb_spec(comb_spec(1, i + 1), i + 5)
            } else if s[i + 1] == 0 {
                comb_spec(1, i + 1)
            } else {
                0
            }
        } else if shape == 0x0F {
            if s[i + 5] == 0 {
                comb_spec(comb_spec(1, i), i + 5)
            } else {
                comb_spec(1, i)
            }
        } else {
            0
        }
    }
}

pub open spec fn first_b4p(s: Seq<i32>, p: int, i: int, hi: int, x0: int) -> int
    decreases hi + 1 - i,
{
    if i > hi {
        0
    } else if b4p_window(s, p, i, x0) != 0 {
        b4p_window(s, p, i, x0)
    } else {
        first_b4p(s, p, i + 1, hi, x0)
    }
}

/// The points that complete the four through point `pi`, encoded with
/// `comb_spec` (one point, or two when a second five is also made); 0 when
/// there is no four.
pub open spec fn b4p_spec(s: Seq<i32>, pi: int) -> int {
    let p = pi + 2;
    let x0 = s[p] as int;
    if x0 == 0 || x0 == SENTINEL {
        0
    } else {
        first_b4p(s, p, max2(p, 4), min_to(p, 12), x0)
    }
}

pub fn scan_b4p(cells: &[i32], point_index: usize) -> (r: i32)
    requires
        line_cells_ok(cells@),
        point_index < BOARD_SIZE,
    ensures
        r == b4p_spec(cells@, point_index as int),
        r >= 0,
{
    let ghost s = cells@;
    let p = point_index + 2;
    let x0 = cells[p];
    if x0 == 0 || x0 == SENTINEL {
        return 0;
    }
    proof {
        assert(line_value(s[p as int]));
    }
    let xmin = if p >= 6 {
        p - 4
    } else {
        2
    };
    let xmax = if p <= 12 {
        p
    } else {
        12
    };
    let mut i = xmin;
    while i <= xmax
        invariant
            line_cells_ok(s),
            s == cells@,
            p == point_index + 2,
            x0 == s[p as int],
            x0 == 1 || x0 == -1,
            xmin == max2(p as int, 4),
            xmax == min_to(p as int, 12),
            xmin <= i <= xmax + 1,
            first_b4p(s, p as int, xmin as int, xmax as int, x0 as int) == first_b4p(
                s,
                p as int,
                i as int,
                xmax as int,
                x0 as int,
            ),
        decreases xmax + 1 - i,
    {
        if cells[i] + cells[i + 1] + cells[i + 2] + cells[i + 3] + cells[i + 4] == 4 * x0 {
            let shape = shape5_exec(cells, i, x0);
            proof {
                lemma_window_small(s, i as int, 5);
            }
            if shape == 0x1E {
                if cells[i - 1] == 0 {
                    return comc(1, i - 1, i + 4);
                }
                return comb(1, i + 4);
            }
            if shape == 0x1D {
                if i <= 8 && cells[i + 5] == x0 && cells[i + 6] == x0 && cells[i + 7] == x0 && p == i
                    + 4 && cells[i + 3] == 0 {
                    return comc(1, i + 3, i + 5);
                }
                if cells[i + 3] == 0 {
                    return comb(1, i + 3);
                }
            }
            if shape == 0x1B {
                if i <= 9 && cells[i + 5] == 0 && cells[i + 6] == x0 && cells[i + 7] == x0 && (p
                    == i + 4 || p == i + 3) && cells[i + 2] == 0 {
                    return comc(1, i + 2, i + 5);
                }
                if cells[i + 2] == 0 {
                    return comb(1, i + 2);
                }
            }
            if shape == 0x17 {
                if i <= 10 && cells[i + 5] == 0 && cells[i + 6] == x0 && (p == i + 4 || p == i + 3
                    || p == i + 2) && cells[i + 1] == 0 {
                    return comc(1, i + 1, i + 5);
                }
                if cells[i + 1] == 0 {
                    return comb(1, i + 1);
                }
            }
            if shape == 0x0F {
                if cells[i + 5] == 0 {
                    return comc(1, i, i + 5);
                }
                return comb(1, i);
            }
        }
        i = i + 1;
    }
    0
}

// ----- threes (a3 / a3pb) -----------------------------------------------------

pub open spec fn shape4(s: Seq<i32>, i: int, x0: int) -> int {
    let raw = s[i] * 8 + s[i + 1] * 4 + s[i + 2] * 2 + s[i + 3];
    if x0 == -1 {
        -raw
    } else {
        raw
    }
}

/// Window `i` holds three stones of colour `x0` and one empty point.
pub open spec fn three_window(s: Seq<i32>, i: int, x0: int) -> bool {
    sum4(s, i) == 3 * x0 && (s[i] == 0 || s[i + 1] == 0 || s[i + 2] == 0 || s[i + 3] == 0)
}

/// The encoded gain points of the three scan at window `i`; 0 lets the scan go on.
pub open spec fn a3_window(s: Seq<i32>, i: int, x0: int) -> int {
    if !three_window(s, i, x0) {
        0
    } else {
        let shape = shape4(s, i, x0);
        if shape == 0x0E && s[i - 1] == 0 && s[i - 2] != x0 && s[i + 4] != x0 && (s[i - 2] == 0
            || s[i + 4] == 0) {
            if s[i - 2] == 0 && s[i + 4] == 0 {
                comb_spec(comb_spec(1, i - 1), i + 3)
            } else if s[i - 2] == 0 {
                comb_spec(1, i - 1)
            } else {
                comb_spec(1, i + 3)
            }
        } else if shape == 0x0D && s[i - 1] == 0 && s[i + 4] == 0 {
            comb_spec(1, i + 2)
        } else if shape == 0x0B && s[i - 1] == 0 && s[i + 4] == 0 {
            comb_spec(1, i + 1)
        } else {
            0
        }
    }
}

pub open spec fn first_a3(s: Seq<i32>, i: int, hi: int, x0: int) -> int
    decreases hi + 1 - i,
{
    if i > hi {
        0
    } else if a3_window(s, i, x0) != 0 {
        a3_window(s, i, x0)
    } else {
        first_a3(s, i + 1, hi, x0)
    }
}

/// The gain points of the open three through point `pi` (encoded); 0 when none.
pub open spec fn a3_spec(s: Seq<i32>, pi: int) -> int {
    let p = pi + 2;
    let x0 = s[p] as int;
    if x0 == 0 || x0 == SENTINEL {
        0
    } else {
        first_a3(s, max2(p, 3), min_to(p, 13), x0)
    }
}

/// Window `i` as the open-three scan with the extended encoding of `a3pb`.
pub open spec fn a3pb_window(s: Seq<i32>, i: int, x0: int) -> int {
    if !three_window(s, i, x0) {
        0
    } else {
        let shape = shape4(s, i, x0);
        if shape == 0x0E && s[i - 1] == 0 && s[i - 2] != x0 && s[i + 4] != x0 && (s[i - 2] == 0
            || s[i + 4] == 0) {
            if s[i - 2] == 0 && s[i + 4] == 0 {
                comb_spec(comb_spec(1, i - 1), i + 3)
            } else if s[i - 2] == 0 {
                comb_spec(comb_spec(comb_spec(1, i - 1), i - 2), i + 3)
            } else {
                comb_spec(comb_spec(comb_spec(1, i + 3), i - 1), i + 4)
            }
        } else if shape == 0x0D && s[i - 1] == 0 && s[i + 4] == 0 {
            comb_spec(comb_spec(comb_spec(1, i + 2), i - 1), i + 4)
        } else if shape == 0x0B && s[i - 1] == 0 && s[i + 4] == 0 {
            comb_spec(comb_spec(comb_spec(1, i + 1), i - 1), i + 4)
        } else {
            0
        }
    }
}

pub open spec fn first_a3pb(s: Seq<i32>, i: int, hi: int, x0: int) -> int
    decreases hi + 1 - i,
{
    if i > hi {
        0
    } else if a3pb_window(s, i, x0) != 0 {
        a3pb_window(s, i, x0)
    } else {
        first_a3pb(s, i + 1, hi, x0)
    }
}

pub open spec fn a3pb_spec(s: Seq<i32>, pi: int) -> int {
    let p = pi + 2;
    let x0 = s[p] as int;
    if x0 == 0 || x0 == SENTINEL {
        0
    } else {
        first_a3pb(s, max2(p, 3), min_to(p, 13), x0)
    }
}

fn three_window_exec(cells: &[i32], i: usize, x0: i32) -> (r: bool)
    requires
        line_cells_ok(cells@),
        2 <= i <= 13,
        x0 == 1 || x0 == -1,
    ensures
        r == three_window(cells@, i as int, x0 as int),
        r ==> forall|j: int| i <= j < i + 4 ==> -1 <= #[trigger] cells@[j] <= 1,
{
    proof {
        assert(line_value(cells@[i as int]) && line_value(cells@[i + 1]) && line_value(cells@[i + 2])
            && line_value(cells@[i + 3]));
    }
    cells[i] + cells[i + 1] + cells[i + 2] + cells[i + 3] == 3 * x0 && (cells[i] == 0 || cells[i
        + 1] == 0 || cells[i + 2] == 0 || cells[i + 3] == 0)
}

fn shape4_exec(cells: &[i32], i: usize, x0: i32) -> (shape: i32)
    requires
        line_cells_ok(cells@),
        2 <= i <= 13,
        x0 == 1 || x0 == -1,
        forall|j: int| i <= j < i + 4 ==> -1 <= #[trigger] cells@[j] <= 1,
    ensures
        shape == shape4(cells@, i as int, x0 as int),
{
    let raw = cells[i] * 8 + cells[i + 1] * 4 + cells[i + 2] * 2 + cells[i + 3];
    if x0 == -1 {
        -raw
    } else {
        raw
    }
}

/// Shared body of `scan_a3` (`extended == false`) and `scan_a3pb` (`true`).
fn scan_three(cells: &[i32], point_index: usize, extended: bool) -> (r: i32)
    requires
        line_cells_ok(cells@),
        point_index < BOARD_SIZE,
    ensures
        !extended ==> r == a3_spec(cells@, point_index as int),
        extended ==> r == a3pb_spec(cells@, point_index as int),
{
    let ghost s = cells@;
    let p = point_index + 2;
    let x0 = cells[p];
    if x0 == 0 || x0 == SENTINEL {
        return 0;
    }
    proof {
        assert(line_value(s[p as int]));
    }
    let xmin = if p >= 5 {
        p - 3
    } else {
        2
    };
    let xmax = if p <= 13 {
        p
    } else {
        13
    };
    let mut i = xmin;
    while i <= xmax
        invariant
            line_cells_ok(s),
            s == cells@,
            p == point_index + 2,
            x0 == s[p as int],
            x0 == 1 || x0 == -1,
            xmin == max2(p as int, 3),
            xmax == min_to(p as int, 13),
            xmin <= i <= xmax + 1,
            !extended ==> first_a3(s, xmin as int, xmax as int, x0 as int) == first_a3(
                s,
                i as int,
                xmax as int,
                x0 as int,
            ),
            extended ==> first_a3pb(s, xmin as int, xmax as int, x0 as int) == first_a3pb(
                s,
                i as int,
                xmax as int,
                x0 as int,
            ),
        decreases xmax + 1 - i,
    {
        if three_window_exec(cells, i, x0) {
            let shape = shape4_exec(cells, i, x0);
            if shape == 0x0E && cells[i - 1] == 0 && cells[i - 2] != x0 && cells[i + 4] != x0 {
                if cells[i - 2] == 0 && cells[i + 4] == 0 {
                    return comc(1, i - 1, i + 3);
                }
                if cells[i - 2] == 0 {
                    if extended {
                        return comd(1, i - 1, i - 2, i + 3);
                    }
                    return comb(1, i - 1);
                }
                if cells[i + 4] == 0 {
                    if extended {
                        return comd(1, i + 3, i - 1, i + 4);
                    }
                    return comb(1, i + 3);
                }
            }
            if shape == 0x0D && cells[i - 1] == 0 && cells[i + 4] == 0 {
                if extended {
                    return comd(1, i + 2, i - 1, i + 4);
                }
                return comb(1, i + 2);
            }
            if shape == 0x0B && cells[i - 1] == 0 && cells[i + 4] == 0 {
                if extended {
                    return comd(1, i + 1, i - 1, i + 4);
                }
                return comb(1, i + 1);
            }
        }
        i = i + 1;
    }
    0
}

pub fn scan_a3(cells: &[i32], point_index: usize) -> (r: i32)
    requires
        line_cells_ok(cells@),
        point_index < BOARD_SIZE,
    ensures
        r == a3_spec(cells@, point_index as int),
{
    scan_three(cells, point_index, false)
}

pub fn scan_a3pb(cells: &[i32], point_index: usize) -> (r: i32)
    requires
        line_cells_ok(cells@),
        point_index < BOARD_SIZE,
    ensures
        r == a3pb_spec(cells@, point_index as int),
{
    scan_three(cells, point_index, true)
}

// ----- lines read from a board -------------------------------------------------

/// Board point `i` of the line `pivot` in `direction`, or the sentinel where
/// the line has no point.
pub open spec fn line_cell_spec(cells: Seq<Side>, pivot: int, direction: i32, i: int) -> i32 {
    if direction == HORIZONTAL {
        cells[i * 15 + pivot] as i32
    } else if direction == VERTICAL {
        cells[pivot * 15 + i] as i32
    } else if 0 <= pivot - i < 15 {
        if direction == DIAGONAL_DOWN {
            cells[i * 15 + (pivot - i)] as i32
        } else {
            cells[(14 - i) * 15 + (pivot - i)] as i32
        }
    } else {
        SENTINEL
    }
}

/// The nineteen cells of the line `pivot` in `direction`.
pub open spec fn line_from_board_spec(cells: Seq<Side>, pivot: int, direction: i32) -> Seq<i32> {
    Seq::new(
        LINE_CELLS as nat,
        |k: int|
            if 2 <= k < 17 {
                line_cell_spec(cells, pivot, direction, k - 2)
            } else {
                SENTINEL
            },
    )
}

#[derive(Clone, Debug, PartialEq, Eq)]
pub struct Line {
    pub cells: Vec<i32>,
}

impl Line {
    pub fn from_board(board: &Board, pivot: usize, direction: i32) -> (r: Result<Self, PatternError>)
        requires
            board.wf(),
            (direction == HORIZONTAL || direction == VERTICAL) ==> pivot < 15,
            (direction == DIAGONAL_DOWN || direction == DIAGONAL_UP) ==> pivot < 29,
        ensures
            0 <= direction <= 3 ==> (r matches Ok(line) && line.cells@ == line_from_board_spec(
                board@.cells,
                pivot as int,
                direction,
            )),
            !(0 <= direction <= 3) ==> r == Err::<Line, PatternError>(
                PatternError::InvalidDirection(direction),
            ),
    {
        if !(0 <= direction && direction <= 3) {
            return Err(PatternError::InvalidDirection(direction));
        }
        let grid = board.grid_copy();
        let mut cells: Vec<i32> = Vec::new();
        let mut k: usize = 0;
        while k < LINE_CELLS
            invariant
                0 <= direction <= 3,
                (direction == HORIZONTAL || direction == VERTICAL) ==> pivot < 15,
                (direction == DIAGONAL_DOWN || direction == DIAGONAL_UP) ==> pivot < 29,
                grid@ == board@.cells,
                grid@.len() == BOARD_AREA,
                k <= LINE_CELLS,
                cells@.len() == k,
                forall|j: int|
                    0 <= j < k ==> cells@[j] == line_from_board_spec(
                        board@.cells,
                        pivot as int,
                        direction,
                    )[j],
            decreases LINE_CELLS - k,
        {
            let v: i32 = if k < 2 || k >= 17 {
                SENTINEL
            } else {
                let i = k - 2;
                if direction == HORIZONTAL {
                    grid[i * 15 + pivot] as i32
                } else if direction == VERTICAL {
                    grid[pivot * 15 + i] as i32
                } else if pivot >= i && pivot - i < 15 {
                    if direction == DIAGONAL_DOWN {
                        grid[i * 15 + (pivot - i)] as i32
                    } else {
                        grid[(14 - i) * 15 + (pivot - i)] as i32
                    }
                } else {
                    SENTINEL
                }
            };
            cells.push(v);
            k = k + 1;
        }
        assert(cells@ =~= line_from_board_spec(board@.cells, pivot as int, direction));
        Ok(Line { cells })
    }

    pub fn a4(&self, point_index: usize) -> (r: i32)
        requires
            line_cells_ok(self.cells@),
            point_index < BOARD_SIZE,
        ensures
            r == a4_spec(self.cells@, point_index as int),
    {
        scan_a4(self.cells.as_slice(), point_index)
    }

    pub fn a6(&self, point_index: usize) -> (r: i32)
        requires
            line_cells_ok(self.cells@),
            point_index < BOARD_SIZE,
        ensures
            r == a6_spec(self.cells@, point_index as int),
    {
        scan_a6(self.cells.as_slice(), point_index)
    }

    pub fn a5(&self, point_index: usize) -> (r: i32)
        requires
            line_cells_ok(self.cells@),
            point_index < BOARD_SIZE,
        ensures
            r == a5_spec(self.cells@, point_index as int),
    {
        scan_a5(self.cells.as_slice(), point_index)
    }

    pub fn b4(&self, point_index: usize) -> (r: i32)
        requires
            line_cells_ok(self.cells@),
            point_index < BOARD_SIZE,
        ensures
            r == b4_spec(self.cells@, point_index as int),
    {
        scan_b4(self.cells.as_slice(), point_index)
    }

    pub fn b4p(&self, point_index: usize) -> (r: i32)
        requires
            line_cells_ok(self.cells@),
            point_index < BOARD_SIZE,
        ensures
            r == b4p_spec(self.cells@, point_index as int),
    {
        scan_b4p(self.cells.as_slice(), point_index)
    }

    pub fn a3(&self, point_index: usize) -> (r: i32)
        requires
            line_cells_ok(self.cells@),
            point_index < BOARD_SIZE,
        ensures
            r == a3_spec(self.cells@, point_index as int),
    {
        scan_a3(self.cells.as_slice(), point_index)
    }

    pub fn a3pb(&self, point_index: usize) -> (r: i32)
        requires
            line_cells_ok(self.cells@),
            point_index < BOARD_SIZE,
        ensures
            r == a3pb_spec(self.cells@, point_index as int),
    {
        scan_a3pb(self.cells.as_slice(), point_index)
    }
}

} // verus!
