//! Local cache maintenance: which points must be re-evaluated after a change,
//! and the bookkeeping of the occupied-point list.
use vstd::prelude::*;
use vstd::multiset::Multiset;
use vstd::set_lib::{lemma_int_range, lemma_len_subset, set_int_range};

use crate::board::Board;
use crate::constants::{BLACK, BOARD_AREA, BOARD_SIZE, DSHAPE_SIZE, EMPTY, WHITE};
use crate::eval::caches::EvalCaches;
use crate::rules::RuleSet;
use crate::types::{Move, Side};

verus! {

pub fn local_backend_name() -> (s: &'static str)
    ensures
        s@ == "python"@,
{
    "python"
}

/// Flag: the point's shape along the first cache direction must be recomputed.
pub const DIRTY_H: u8 = 1;

/// Flag: the point's shape along the second cache direction must be recomputed.
pub const DIRTY_V: u8 = 2;

/// Flag: the point's shape along the third cache direction must be recomputed.
pub const DIRTY_DD: u8 = 4;

/// Flag: the point's shape along the fourth cache direction must be recomputed.
pub const DIRTY_DU: u8 = 8;

/// Points marked for re-evaluation, each with the directions to recompute.
///
/// `flags` is indexed by move (`y * 15 + x`); `order` lists each marked point
/// once, in the order in which it was first marked.
pub struct DirtyCells {
    pub flags: [u8; BOARD_AREA],
    pub order: [Move; BOARD_AREA],
    pub len: usize,
}

/// The listing invariant: the first `len` entries of `order` are exactly the
/// points with a nonzero flag, each once.
pub open spec fn dirty_listing(flags: Seq<u8>, order: Seq<Move>, len: int) -> bool {
    &&& flags.len() == 225
    &&& order.len() == 225
    &&& 0 <= len <= 225
    &&& forall|i: int| 0 <= i < len ==> #[trigger] order[i] < 225 && flags[order[i] as int] != 0
    &&& forall|i: int, j: int| 0 <= i < j < len ==> #[trigger] order[i] != #[trigger] order[j]
    &&& forall|c: int|
        0 <= c < 225 && #[trigger] flags[c] != 0 ==> exists|i: int| 0 <= i < len && order[i] == c
}

impl DirtyCells {
    pub open spec fn wf(&self) -> bool {
        dirty_listing(self.flags@, self.order@, self.len as int)
    }

    /// No point marked.
    pub fn new() -> (d: Self)
        ensures
            d.wf(),
            d.len == 0,
            forall|c: int| 0 <= c < 225 ==> #[trigger] d.flags@[c] == 0,
    {
        DirtyCells { flags: [0u8; BOARD_AREA], order: [0u16; BOARD_AREA], len: 0 }
    }

    /// The flags of `(x, y)`.
    pub fn flags_at(&self, x: usize, y: usize) -> (f: u8)
        requires
            x < BOARD_SIZE,
            y < BOARD_SIZE,
        ensures
            f == self.flags@[y * 15 + x],
    {
        self.flags[y * BOARD_SIZE + x]
    }

    /// The `i`-th marked point, as a move.
    pub fn marked(&self, i: usize) -> (m: Move)
        requires
            i < self.len,
            self.wf(),
        ensures
            m == self.order@[i as int],
            m < 225,
    {
        self.order[i]
    }
}

/// A list without repeats of moves below 225 that leaves out `c` has fewer
/// than 225 entries.
proof fn lemma_listing_leaves_room(order: Seq<Move>, len: int, c: int)
    requires
        0 <= len <= order.len(),
        0 <= c < 225,
        forall|i: int| 0 <= i < len ==> #[trigger] order[i] < 225,
        forall|i: int, j: int| 0 <= i < j < len ==> #[trigger] order[i] != #[trigger] order[j],
        forall|i: int| 0 <= i < len ==> #[trigger] order[i] != c,
    ensures
        len < 225,
{
    let s = order.subrange(0, len).map_values(|m: Move| m as int);
    assert forall|i: int, j: int| 0 <= i < s.len() && 0 <= j < s.len() && i != j implies s[i] != s[j] by {
        if i < j {
            assert(order[i] != order[j]);
        } else {
            assert(order[j] != order[i]);
        }
    }
    assert(s.no_duplicates());
    s.unique_seq_to_set();
    let range = set_int_range(0, 225).remove(c);
    lemma_int_range(0, 225);
    assert forall|v: int| s.to_set().contains(v) implies range.contains(v) by {
        let i = choose|i: int| 0 <= i < s.len() && s[i] == v;
        assert(order[i] < 225);
        assert(order[i] != c);
    }
    lemma_len_subset(s.to_set(), range);
}

/// Marks `(x, y)` with `flag`, listing it if it was not marked yet.
pub fn mark_dirty_cell(marks: &mut DirtyCells, x: usize, y: usize, flag: u8)
    requires
        old(marks).wf(),
        x < BOARD_SIZE,
        y < BOARD_SIZE,
        flag != 0,
    ensures
        final(marks).wf(),
        final(marks).flags@ == old(marks).flags@.update(
            y * 15 + x,
            old(marks).flags@[y * 15 + x] | flag,
        ),
        old(marks).len <= final(marks).len,
        forall|i: int| 0 <= i < old(marks).len ==> #[trigger] final(marks).order@[i] == old(marks).order@[i],
        old(marks).flags@[y * 15 + x] == 0 ==> final(marks).len == old(marks).len + 1 && final(marks).order@[old(
            marks,
        ).len as int] == y * 15 + x,
        old(marks).flags@[y * 15 + x] != 0 ==> final(marks).len == old(marks).len,
{
    let idx = y * BOARD_SIZE + x;
    let old_flags = marks.flags[idx];
    if old_flags == 0 {
        proof {
            assert forall|i: int| 0 <= i < marks.len implies #[trigger] marks.order@[i] != idx by {
                assert(marks.flags@[marks.order@[i] as int] != 0);
            }
            lemma_listing_leaves_room(marks.order@, marks.len as int, idx as int);
        }
        let len = marks.len;
        marks.order[len] = idx as Move;
        marks.len = len + 1;
    }
    let new_flags = old_flags | flag;
    assert(new_flags != 0) by (bit_vector)
        requires
            new_flags == old_flags | flag,
            flag != 0,
    ;
    marks.flags[idx] = new_flags;
    proof {
        let f = marks.flags@;
        let o = marks.order@;
        let n = marks.len as int;
        assert forall|c: int| 0 <= c < 225 && #[trigger] f[c] != 0 implies exists|i: int|
            0 <= i < n && o[i] == c by {
            if c == idx as int {
                if old_flags == 0 {
                    assert(o[n - 1] == c);
                } else {
                    let i = choose|i: int| 0 <= i < old(marks).len && old(marks).order@[i] == c;
                    assert(o[i] == c);
                }
            } else {
                assert(old(marks).flags@[c] != 0);
                let i = choose|i: int| 0 <= i < old(marks).len && old(marks).order@[i] == c;
                assert(o[i] == c);
            }
        }
    }
}


// ---------------------------------------------------------------------------
// Rays from a changed point.
// ---------------------------------------------------------------------------

pub open spec fn unit_step(d: int) -> bool {
    d == -1 || d == 0 || d == 1
}

/// Coordinate after `k` steps of `d` from `c`.
pub open spec fn ray_coord(c: int, d: int, k: int) -> int {
    if d > 0 {
        c + k
    } else if d < 0 {
        c - k
    } else {
        c
    }
}

/// Index (`y * 15 + x`) of the point `k` steps from `(x, y)` along `(dx, dy)`.
pub open spec fn ray_cell(x: int, y: int, dx: int, dy: int, k: int) -> int {
    ray_coord(y, dy, k) * 15 + ray_coord(x, dx, k)
}

/// The stones on steps `1..=k` of the ray all have one colour.
pub open spec fn ray_uniform(grid: Seq<Side>, x: int, y: int, dx: int, dy: int, k: int) -> bool {
    forall|i: int, j: int|
        1 <= i <= k && 1 <= j <= k && #[trigger] grid[ray_cell(x, y, dx, dy, i)] != EMPTY
            && #[trigger] grid[ray_cell(x, y, dx, dy, j)] != EMPTY ==> grid[ray_cell(x, y, dx, dy, i)]
            == grid[ray_cell(x, y, dx, dy, j)]
}

/// Step `k` of the ray is reached: it lies within `radius` and on the board,
/// and no stone of the other colour stands between it and the first stone.
pub open spec fn ray_marks(
    grid: Seq<Side>,
    x: int,
    y: int,
    dx: int,
    dy: int,
    size: int,
    radius: int,
    k: int,
) -> bool {
    &&& 1 <= k <= radius
    &&& 0 <= ray_coord(x, dx, k) < size
    &&& 0 <= ray_coord(y, dy, k) < size
    &&& ray_uniform(grid, x, y, dx, dy, k)
}

/// The step at which the ray along `(dx, dy)` would reach `(cx, cy)`.
pub open spec fn ray_step(x: int, y: int, dx: int, dy: int, cx: int, cy: int) -> int {
    if dx > 0 {
        cx - x
    } else if dx < 0 {
        x - cx
    } else if dy > 0 {
        cy - y
    } else {
        y - cy
    }
}

/// `(cx, cy)` is a reached step of the ray from `(x, y)` along `(dx, dy)`.
pub open spec fn ray_hits(
    grid: Seq<Side>,
    x: int,
    y: int,
    dx: int,
    dy: int,
    size: int,
    radius: int,
    cx: int,
    cy: int,
) -> bool {
    let k = ray_step(x, y, dx, dy, cx, cy);
    &&& ray_coord(x, dx, k) == cx
    &&& ray_coord(y, dy, k) == cy
    &&& ray_marks(grid, x, y, dx, dy, size, radius, k)
}

pub open spec fn or_if(v: u8, cond: bool, flag: u8) -> u8 {
    if cond {
        v | flag
    } else {
        v
    }
}

spec fn hits_before(x: int, y: int, dx: int, dy: int, cx: int, cy: int, n: int) -> bool {
    let k = ray_step(x, y, dx, dy, cx, cy);
    &&& 1 <= k < n
    &&& ray_coord(x, dx, k) == cx
    &&& ray_coord(y, dy, k) == cy
}

fn ray_coord_exec(c: usize, d: i8, k: isize) -> (r: isize)
    requires
        c < BOARD_SIZE,
        unit_step(d as int),
        0 <= k,
        k + 15 <= isize::MAX,
    ensures
        r == ray_coord(c as int, d as int, k as int),
{
    if d > 0 {
        c as isize + k
    } else if d < 0 {
        c as isize - k
    } else {
        c as isize
    }
}

/// Marks with `flag` every reached step of the ray from `(x, y)` along `(dx, dy)`.
#[verifier::rlimit(50)]
#[verifier::spinoff_prover]
fn mark_ray(
    marks: &mut DirtyCells,
    grid: &[Side; BOARD_AREA],
    x: usize,
    y: usize,
    dx: i8,
    dy: i8,
    size: usize,
    radius: isize,
    flag: u8,
)
    requires
        old(marks).wf(),
        size <= BOARD_SIZE,
        x < size,
        y < size,
        unit_step(dx as int),
        unit_step(dy as int),
        dx != 0 || dy != 0,
        0 <= radius,
        radius + 15 <= isize::MAX,
        flag != 0,
    ensures
        final(marks).wf(),
        forall|cx: int, cy: int|
            0 <= cx < 15 && 0 <= cy < 15 ==> #[trigger] final(marks).flags@[cy * 15 + cx] == or_if(
                old(marks).flags@[cy * 15 + cx],
                ray_hits(grid@, x as int, y as int, dx as int, dy as int, size as int, radius as int, cx, cy),
                flag,
            ),
        old(marks).len <= final(marks).len,
        forall|i: int| 0 <= i < old(marks).len ==> #[trigger] final(marks).order@[i] == old(marks).order@[i],
{
    let ghost g = grid@;
    let ghost (xi, yi, dxi, dyi, si, ri) = (x as int, y as int, dx as int, dy as int, size as int, radius as int);
    let mut seen: Side = EMPTY;
    let mut k: isize = 1;
    loop
        invariant
            marks.wf(),
            g == grid@,
            xi == x as int,
            yi == y as int,
            dxi == dx as int,
            dyi == dy as int,
            si == size as int,
            ri == radius as int,
            size <= BOARD_SIZE,
            x < size,
            y < size,
            unit_step(dx as int),
            unit_step(dy as int),
            dx != 0 || dy != 0,
            radius + 15 <= isize::MAX,
            flag != 0,
            1 <= k <= radius + 1,
            forall|s: int| 1 <= s < k ==> #[trigger] ray_marks(g, xi, yi, dxi, dyi, si, ri, s),
            forall|i: int|
                1 <= i < k && #[trigger] g[ray_cell(xi, yi, dxi, dyi, i)] != EMPTY ==> g[ray_cell(
                    xi,
                    yi,
                    dxi,
                    dyi,
                    i,
                )] == seen,
            seen != EMPTY ==> exists|i: int| 1 <= i < k && #[trigger] g[ray_cell(xi, yi, dxi, dyi, i)] == seen,
            forall|cx: int, cy: int|
                0 <= cx < 15 && 0 <= cy < 15 ==> #[trigger] marks.flags@[cy * 15 + cx] == or_if(
                    old(marks).flags@[cy * 15 + cx],
                    hits_before(xi, yi, dxi, dyi, cx, cy, k as int),
                    flag,
                ),
            old(marks).len <= marks.len,
            forall|i: int| 0 <= i < old(marks).len ==> #[trigger] marks.order@[i] == old(marks).order@[i],
        ensures
            marks.wf(),
            forall|s: int| 1 <= s < k ==> #[trigger] ray_marks(g, xi, yi, dxi, dyi, si, ri, s),
            forall|s: int| s >= k ==> !#[trigger] ray_marks(g, xi, yi, dxi, dyi, si, ri, s),
            forall|cx: int, cy: int|
                0 <= cx < 15 && 0 <= cy < 15 ==> #[trigger] marks.flags@[cy * 15 + cx] == or_if(
                    old(marks).flags@[cy * 15 + cx],
                    hits_before(xi, yi, dxi, dyi, cx, cy, k as int),
                    flag,
                ),
            old(marks).len <= marks.len,
            forall|i: int| 0 <= i < old(marks).len ==> #[trigger] marks.order@[i] == old(marks).order@[i],
        decreases radius + 1 - k,
    {
        if k > radius {
            break;
        }
        let cx = ray_coord_exec(x, dx, k);
        let cy = ray_coord_exec(y, dy, k);
        if cx < 0 || cy < 0 || cx >= size as isize || cy >= size as isize {
            break;
        }
        let ghost cell = ray_cell(xi, yi, dxi, dyi, k as int);
        let value = grid[(cy as usize) * BOARD_SIZE + cx as usize];
        assert(value == g[cell]);
        if seen == EMPTY {
            seen = value;
        } else if value != EMPTY && value != seen {
            proof {
                let w = choose|i: int| 1 <= i < k && #[trigger] g[ray_cell(xi, yi, dxi, dyi, i)] == seen;
                assert forall|s: int| s >= k implies !#[trigger] ray_marks(g, xi, yi, dxi, dyi, si, ri, s) by {
                    if ray_marks(g, xi, yi, dxi, dyi, si, ri, s) {
                        assert(g[ray_cell(xi, yi, dxi, dyi, w)] != EMPTY);
                        assert(g[ray_cell(xi, yi, dxi, dyi, k as int)] != EMPTY);
                    }
                }
            }
            break;
        }
        let ghost before = marks.flags@;
        mark_dirty_cell(marks, cx as usize, cy as usize, flag);
        k = k + 1;
        proof {
            assert forall|cx2: int, cy2: int|
                0 <= cx2 < 15 && 0 <= cy2 < 15 implies #[trigger] marks.flags@[cy2 * 15 + cx2] == or_if(
                old(marks).flags@[cy2 * 15 + cx2],
                hits_before(xi, yi, dxi, dyi, cx2, cy2, k as int),
                flag,
            ) by {
                assert(before[cy2 * 15 + cx2] == or_if(
                    old(marks).flags@[cy2 * 15 + cx2],
                    hits_before(xi, yi, dxi, dyi, cx2, cy2, k - 1),
                    flag,
                ));
            }
            assert(ray_marks(g, xi, yi, dxi, dyi, si, ri, k - 1)) by {
                assert forall|i: int, j: int|
                    1 <= i <= k - 1 && 1 <= j <= k - 1 && #[trigger] g[ray_cell(xi, yi, dxi, dyi, i)]
                        != EMPTY && #[trigger] g[ray_cell(xi, yi, dxi, dyi, j)] != EMPTY implies g[ray_cell(
                    xi,
                    yi,
                    dxi,
                    dyi,
                    i,
                )] == g[ray_cell(xi, yi, dxi, dyi, j)] by {}
            }
        }
    }
    proof {
        assert forall|cx2: int, cy2: int|
            0 <= cx2 < 15 && 0 <= cy2 < 15 implies hits_before(xi, yi, dxi, dyi, cx2, cy2, k as int)
            == ray_hits(g, xi, yi, dxi, dyi, si, ri, cx2, cy2) by {
            let s = ray_step(xi, yi, dxi, dyi, cx2, cy2);
            if s >= k {
                assert(!ray_marks(g, xi, yi, dxi, dyi, si, ri, s));
            } else if 1 <= s {
                assert(ray_marks(g, xi, yi, dxi, dyi, si, ri, s));
            }
        }
    }
}

/// The flags that marking the neighbours of `(x, y)` adds to `(cx, cy)`: the
/// vertical rays mark the first direction, the horizontal rays the second,
/// the rays towards (-1, +1) and (+1, -1) the third and the other diagonal the
/// fourth.
pub open spec fn dirty_neighbor_flags(
    grid: Seq<Side>,
    x: int,
    y: int,
    size: int,
    radius: int,
    cx: int,
    cy: int,
) -> u8 {
    let h = ray_hits(grid, x, y, 0, 1, size, radius, cx, cy) || ray_hits(grid, x, y, 0, -1, size, radius, cx, cy);
    let v = ray_hits(grid, x, y, 1, 0, size, radius, cx, cy) || ray_hits(grid, x, y, -1, 0, size, radius, cx, cy);
    let dd = ray_hits(grid, x, y, -1, 1, size, radius, cx, cy) || ray_hits(grid, x, y, 1, -1, size, radius, cx, cy);
    let du = ray_hits(grid, x, y, 1, 1, size, radius, cx, cy) || ray_hits(grid, x, y, -1, -1, size, radius, cx, cy);
    (if h { DIRTY_H } else { 0u8 }) | (if v { DIRTY_V } else { 0u8 }) | (if dd { DIRTY_DD } else { 0u8 }) | (
    if du {
        DIRTY_DU
    } else {
        0u8
    })
}

proof fn lemma_or_chain(v: u8, b1: bool, b2: bool, b3: bool, b4: bool, b5: bool, b6: bool, b7: bool, b8: bool)
    ensures
        or_if(
            or_if(
                or_if(or_if(or_if(or_if(or_if(or_if(v, b1, 1u8), b2, 1u8), b3, 2u8), b4, 2u8), b5, 4u8), b6, 4u8),
                b7,
                8u8,
            ),
            b8,
            8u8,
        ) == v | ((if b1 || b2 { 1u8 } else { 0u8 }) | (if b3 || b4 { 2u8 } else { 0u8 }) | (if b5 || b6 {
            4u8
        } else {
            0u8
        }) | (if b7 || b8 { 8u8 } else { 0u8 })),
{
    assert(or_if(
        or_if(
            or_if(or_if(or_if(or_if(or_if(or_if(v, b1, 1u8), b2, 1u8), b3, 2u8), b4, 2u8), b5, 4u8), b6, 4u8),
            b7,
            8u8,
        ),
        b8,
        8u8,
    ) == v | ((if b1 || b2 { 1u8 } else { 0u8 }) | (if b3 || b4 { 2u8 } else { 0u8 }) | (if b5 || b6 {
        4u8
    } else {
        0u8
    }) | (if b7 || b8 { 8u8 } else { 0u8 }))) by (bit_vector);
}

/// Marks the points whose shapes may change when `(x, y)` changes: along each
/// of the eight rays, the points up to `radius` steps away, stopping before
/// the first stone whose colour differs from the first stone met.
pub fn mark_cell_neighbors(
    marks: &mut DirtyCells,
    grid: &[Side; BOARD_AREA],
    x: usize,
    y: usize,
    size: usize,
    radius: isize,
)
    requires
        old(marks).wf(),
        size <= BOARD_SIZE,
        x < size,
        y < size,
        0 <= radius,
        radius + 15 <= isize::MAX,
    ensures
        final(marks).wf(),
        forall|cx: int, cy: int|
            0 <= cx < 15 && 0 <= cy < 15 ==> #[trigger] final(marks).flags@[cy * 15 + cx] == old(marks).flags@[cy
                * 15 + cx] | dirty_neighbor_flags(grid@, x as int, y as int, size as int, radius as int, cx, cy),
        old(marks).len <= final(marks).len,
        forall|i: int| 0 <= i < old(marks).len ==> #[trigger] final(marks).order@[i] == old(marks).order@[i],
{
    let ghost f0 = marks.flags@;
    mark_ray(marks, grid, x, y, 0, 1, size, radius, DIRTY_H);
    let ghost f1 = marks.flags@;
    mark_ray(marks, grid, x, y, 0, -1, size, radius, DIRTY_H);
    let ghost f2 = marks.flags@;
    mark_ray(marks, grid, x, y, 1, 0, size, radius, DIRTY_V);
    let ghost f3 = marks.flags@;
    mark_ray(marks, grid, x, y, -1, 0, size, radius, DIRTY_V);
    let ghost f4 = marks.flags@;
    mark_ray(marks, grid, x, y, -1, 1, size, radius, DIRTY_DD);
    let ghost f5 = marks.flags@;
    mark_ray(marks, grid, x, y, 1, -1, size, radius, DIRTY_DD);
    let ghost f6 = marks.flags@;
    mark_ray(marks, grid, x, y, 1, 1, size, radius, DIRTY_DU);
    let ghost f7 = marks.flags@;
    mark_ray(marks, grid, x, y, -1, -1, size, radius, DIRTY_DU);
    proof {
        let (g, xi, yi, si, ri) = (grid@, x as int, y as int, size as int, radius as int);
        assert forall|cx: int, cy: int| 0 <= cx < 15 && 0 <= cy < 15 implies #[trigger] marks.flags@[cy * 15 + cx]
            == f0[cy * 15 + cx] | dirty_neighbor_flags(g, xi, yi, si, ri, cx, cy) by {
            let c = cy * 15 + cx;
            assert(f1[c] == or_if(f0[c], ray_hits(g, xi, yi, 0, 1, si, ri, cx, cy), 1u8));
            assert(f2[c] == or_if(f1[c], ray_hits(g, xi, yi, 0, -1, si, ri, cx, cy), 1u8));
            assert(f3[c] == or_if(f2[c], ray_hits(g, xi, yi, 1, 0, si, ri, cx, cy), 2u8));
            assert(f4[c] == or_if(f3[c], ray_hits(g, xi, yi, -1, 0, si, ri, cx, cy), 2u8));
            assert(f5[c] == or_if(f4[c], ray_hits(g, xi, yi, -1, 1, si, ri, cx, cy), 4u8));
            assert(f6[c] == or_if(f5[c], ray_hits(g, xi, yi, 1, -1, si, ri, cx, cy), 4u8));
            assert(f7[c] == or_if(f6[c], ray_hits(g, xi, yi, 1, 1, si, ri, cx, cy), 8u8));
            assert(marks.flags@[c] == or_if(f7[c], ray_hits(g, xi, yi, -1, -1, si, ri, cx, cy), 8u8));
            lemma_or_chain(
                f0[c],
                ray_hits(g, xi, yi, 0, 1, si, ri, cx, cy),
                ray_hits(g, xi, yi, 0, -1, si, ri, cx, cy),
                ray_hits(g, xi, yi, 1, 0, si, ri, cx, cy),
                ray_hits(g, xi, yi, -1, 0, si, ri, cx, cy),
                ray_hits(g, xi, yi, -1, 1, si, ri, cx, cy),
                ray_hits(g, xi, yi, 1, -1, si, ri, cx, cy),
                ray_hits(g, xi, yi, 1, 1, si, ri, cx, cy),
                ray_hits(g, xi, yi, -1, -1, si, ri, cx, cy),
            );
        }
    }
}

/// The points to re-evaluate after `(x, y)` changed: the point itself in all
/// four directions, and its neighbours as `mark_cell_neighbors` finds them,
/// within 5 steps under Renju and 4 otherwise.
pub fn dirty_cells_for_change(grid: &[Side; BOARD_AREA], x: usize, y: usize, rule: RuleSet) -> (d: DirtyCells)
    requires
        x < BOARD_SIZE,
        y < BOARD_SIZE,
    ensures
        d.wf(),
        d.len >= 1,
        d.order@[0] == y * 15 + x,
        forall|cx: int, cy: int|
            0 <= cx < 15 && 0 <= cy < 15 ==> #[trigger] d.flags@[cy * 15 + cx] == if cx == x && cy == y {
                15u8
            } else {
                dirty_neighbor_flags(
                    grid@,
                    x as int,
                    y as int,
                    15,
                    if rule == RuleSet::Renju {
                        5
                    } else {
                        4
                    },
                    cx,
                    cy,
                )
            },
{
    let mut d = DirtyCells::new();
    mark_dirty_cell(&mut d, x, y, 15);
    let radius: isize = if rule == RuleSet::Renju { 5 } else { 4 };
    let ghost f1 = d.flags@;
    mark_cell_neighbors(&mut d, grid, x, y, BOARD_SIZE, radius);
    proof {
        assert forall|cx: int, cy: int| 0 <= cx < 15 && 0 <= cy < 15 implies #[trigger] d.flags@[cy * 15 + cx]
            == if cx == x && cy == y {
            15u8
        } else {
            dirty_neighbor_flags(grid@, x as int, y as int, 15, radius as int, cx, cy)
        } by {
            let c = cy * 15 + cx;
            let extra = dirty_neighbor_flags(grid@, x as int, y as int, 15, radius as int, cx, cy);
            assert(d.flags@[c] == f1[c] | extra);
            if cx == x && cy == y {
                assert(!ray_hits(grid@, x as int, y as int, 0, 1, 15, radius as int, cx, cy));
                assert(!ray_hits(grid@, x as int, y as int, 0, -1, 15, radius as int, cx, cy));
                assert(!ray_hits(grid@, x as int, y as int, 1, 0, 15, radius as int, cx, cy));
                assert(!ray_hits(grid@, x as int, y as int, -1, 0, 15, radius as int, cx, cy));
                assert(!ray_hits(grid@, x as int, y as int, 1, 1, 15, radius as int, cx, cy));
                assert(!ray_hits(grid@, x as int, y as int, -1, -1, 15, radius as int, cx, cy));
                assert(!ray_hits(grid@, x as int, y as int, 1, -1, 15, radius as int, cx, cy));
                assert(!ray_hits(grid@, x as int, y as int, -1, 1, 15, radius as int, cx, cy));
                assert(extra == 0u8) by (bit_vector)
                    requires
                        extra == (0u8 | 0u8) | 0u8 | 0u8,
                ;
                assert(0u8 | 15u8 == 15u8) by (bit_vector);
                assert(f1[c] == 15u8);
                assert(15u8 | 0u8 == 15u8) by (bit_vector);
            } else {
                assert(f1[c] == 0u8);
                let e = extra;
                assert(0u8 | e == e) by (bit_vector);
            }
        }
    }
    d
}

// ---------------------------------------------------------------------------
// Bookkeeping of the occupied-point list and the empty-point bucket counts.
// ---------------------------------------------------------------------------

/// Everything but the occupied list and the bucket counts is unchanged.
pub open spec fn same_cache_contents(a: EvalCaches, b: EvalCaches) -> bool {
    &&& a.initialized == b.initialized
    &&& a.board_shadow == b.board_shadow
    &&& a.shape_cache == b.shape_cache
    &&& a.value_cache == b.value_cache
    &&& a.attack_cache == b.attack_cache
    &&& a.shape_log == b.shape_log
    &&& a.value_log == b.value_log
    &&& a.active_snapshot_count == b.active_snapshot_count
}

/// The occupied list: the first `occupied_len` entries.
pub open spec fn occupied_list(c: EvalCaches) -> Seq<Move> {
    c.occupied_moves@.subrange(0, c.occupied_len as int)
}

/// Appends `move_` to the occupied list.
pub fn add_occupied_move(caches: &mut EvalCaches, move_: Move)
    requires
        old(caches).occupied_len < BOARD_AREA,
    ensures
        same_cache_contents(*final(caches), *old(caches)),
        final(caches).empty_bucket_counts == old(caches).empty_bucket_counts,
        final(caches).occupied_moves@ == old(caches).occupied_moves@.update(old(caches).occupied_len as int, move_),
        final(caches).occupied_len == old(caches).occupied_len + 1,
        occupied_list(*final(caches)) == occupied_list(*old(caches)).push(move_),
{
    let len = caches.occupied_len;
    caches.occupied_moves[len] = move_;
    caches.occupied_len = len + 1;
    assert(occupied_list(*caches) =~= occupied_list(*old(caches)).push(move_));
}

/// Removes `move_` from the occupied list: the last entry if it is `move_`,
/// else the first entry equal to `move_` is overwritten by the last entry.
/// A list without `move_` is left as it is.
pub fn remove_occupied_move(caches: &mut EvalCaches, move_: Move)
    requires
        old(caches).occupied_len <= BOARD_AREA,
    ensures
        same_cache_contents(*final(caches), *old(caches)),
        final(caches).empty_bucket_counts == old(caches).empty_bucket_counts,
        ({
            let l = occupied_list(*old(caches));
            let n = old(caches).occupied_len as int;
            if n == 0 || (l[n - 1] != move_ && forall|i: int| 0 <= i < n - 1 ==> l[i] != move_) {
                final(caches).occupied_len == old(caches).occupied_len && final(caches).occupied_moves
                    == old(caches).occupied_moves
            } else if l[n - 1] == move_ {
                final(caches).occupied_len == n - 1 && final(caches).occupied_moves == old(caches).occupied_moves
            } else {
                exists|i: int|
                    0 <= i < n - 1 && #[trigger] l[i] == move_ && (forall|j: int| 0 <= j < i ==> l[j] != move_)
                        && final(caches).occupied_len == n - 1 && final(caches).occupied_moves@
                        == old(caches).occupied_moves@.update(i, l[n - 1])
            }
        }),
{
    let len = caches.occupied_len;
    if len == 0 {
        return;
    }
    let last_index = len - 1;
    if caches.occupied_moves[last_index] == move_ {
        caches.occupied_len = last_index;
        return;
    }
    let mut i: usize = 0;
    while i < last_index
        invariant
            *caches == *old(caches),
            len == caches.occupied_len,
            last_index == len - 1,
            len <= BOARD_AREA,
            i <= last_index,
            forall|j: int| 0 <= j < i ==> caches.occupied_moves@[j] != move_,
        decreases last_index - i,
    {
        if caches.occupied_moves[i] == move_ {
            let last = caches.occupied_moves[last_index];
            caches.occupied_moves[i] = last;
            caches.occupied_len = last_index;
            proof {
                let l = occupied_list(*old(caches));
                assert(l[i as int] == move_);
                assert(l[last_index as int] == last);
                assert(forall|j: int| 0 <= j < i ==> l[j] != move_);
            }
            return;
        }
        i += 1;
    }
}

/// Records that `(x, y)` went from `old_cell` to `new_cell`: a point that
/// became occupied joins the occupied list, one that became empty leaves it.
pub fn update_occupied_transition(caches: &mut EvalCaches, x: usize, y: usize, old_cell: Side, new_cell: Side)
    requires
        x < BOARD_SIZE,
        y < BOARD_SIZE,
        old(caches).occupied_len <= BOARD_AREA,
        old_cell == EMPTY && new_cell != EMPTY ==> old(caches).occupied_len < BOARD_AREA,
    ensures
        same_cache_contents(*final(caches), *old(caches)),
        final(caches).empty_bucket_counts == old(caches).empty_bucket_counts,
        final(caches).occupied_len <= BOARD_AREA,
        old_cell == EMPTY && new_cell != EMPTY ==> occupied_list(*final(caches)) == occupied_list(
            *old(caches),
        ).push((y * 15 + x) as Move),
        (old_cell == EMPTY) == (new_cell == EMPTY) ==> *final(caches) == *old(caches),
        old_cell != EMPTY && new_cell == EMPTY ==> occupied_list(*final(caches)).to_multiset()
            == if occupied_list(*old(caches)).contains((y * 15 + x) as Move) {
            occupied_list(*old(caches)).to_multiset().remove((y * 15 + x) as Move)
        } else {
            occupied_list(*old(caches)).to_multiset()
        },
{
    let m = (y * BOARD_SIZE + x) as Move;
    if old_cell == EMPTY && new_cell != EMPTY {
        add_occupied_move(caches, m);
    } else if old_cell != EMPTY && new_cell == EMPTY {
        let ghost l = occupied_list(*caches);
        remove_occupied_move(caches, m);
        proof {
            lemma_remove_keeps_multiset(l, occupied_list(*caches), m, *old(caches), *caches);
        }
    }
}

proof fn lemma_remove_keeps_multiset(l: Seq<Move>, l2: Seq<Move>, m: Move, before: EvalCaches, after: EvalCaches)
    requires
        l == occupied_list(before),
        l2 == occupied_list(after),
        before.occupied_len <= 225,
        ({
            let n = before.occupied_len as int;
            if n == 0 || (l[n - 1] != m && forall|i: int| 0 <= i < n - 1 ==> l[i] != m) {
                after.occupied_len == before.occupied_len && after.occupied_moves == before.occupied_moves
            } else if l[n - 1] == m {
                after.occupied_len == n - 1 && after.occupied_moves == before.occupied_moves
            } else {
                exists|i: int|
                    0 <= i < n - 1 && #[trigger] l[i] == m && (forall|j: int| 0 <= j < i ==> l[j] != m)
                        && after.occupied_len == n - 1 && after.occupied_moves@ == before.occupied_moves@.update(
                        i,
                        l[n - 1],
                    )
            }
        }),
    ensures
        l2.to_multiset() == if l.contains(m) {
            l.to_multiset().remove(m)
        } else {
            l.to_multiset()
        },
{
    let n = before.occupied_len as int;
    if n == 0 || (l[n - 1] != m && forall|i: int| 0 <= i < n - 1 ==> l[i] != m) {
        assert(l2 =~= l);
        if l.contains(m) {
            let k = choose|k: int| 0 <= k < l.len() && l[k] == m;
            assert(false);
        }
    } else if l[n - 1] == m {
        assert(l2 =~= l.drop_last());
        assert(l =~= l.drop_last().push(m));
        l.drop_last().to_multiset_ensures();
        assert(l.contains(m)) by {
            assert(l[n - 1] == m);
        }
    } else {
        let i = choose|i: int|
            0 <= i < n - 1 && #[trigger] l[i] == m && (forall|j: int| 0 <= j < i ==> l[j] != m) && after.occupied_len == n - 1
                && after.occupied_moves@ == before.occupied_moves@.update(i, l[n - 1]);
        let last = l[n - 1];
        // l == prefix + [m] + mid + [last], l2 == prefix + [last] + mid
        let prefix = l.subrange(0, i);
        let mid = l.subrange(i + 1, n - 1);
        assert(l =~= prefix + seq![m] + mid + seq![last]);
        assert(l2 =~= prefix + seq![last] + mid);
        assert(l.contains(m)) by {
            assert(l[i] == m);
        }
        vstd::seq_lib::lemma_multiset_commutative(prefix + seq![m], mid + seq![last]);
        vstd::seq_lib::lemma_multiset_commutative(prefix, seq![m]);
        vstd::seq_lib::lemma_multiset_commutative(mid, seq![last]);
        vstd::seq_lib::lemma_multiset_commutative(prefix + seq![last], mid);
        vstd::seq_lib::lemma_multiset_commutative(prefix, seq![last]);
        assert((prefix + seq![m] + mid + seq![last]) =~= (prefix + seq![m]) + (mid + seq![last]));
        seq![m].to_multiset_ensures();
        seq![last].to_multiset_ensures();
        assert(seq![m].to_multiset() =~= Multiset::empty().insert(m)) by {
            assert(seq![m] =~= Seq::<Move>::empty().push(m));
            Seq::<Move>::empty().to_multiset_ensures();
        }
        assert(seq![last].to_multiset() =~= Multiset::empty().insert(last)) by {
            assert(seq![last] =~= Seq::<Move>::empty().push(last));
            Seq::<Move>::empty().to_multiset_ensures();
        }
    }
}

/// Takes the point `(x, y)` out of the bucket counts of empty points, if the
/// shadow board has it empty.
pub fn remove_empty_bucket_contribution(caches: &mut EvalCaches, x: usize, y: usize)
    requires
        x < BOARD_SIZE,
        y < BOARD_SIZE,
        old(caches).board_shadow[x as int][y as int] == EMPTY ==> forall|p: int|
            0 <= p < 2 ==> {
                let b = #[trigger] old(caches).value_cache[p][x as int][y as int];
                0 <= b < DSHAPE_SIZE && old(caches).empty_bucket_counts[p][b as int] > 0
            },
    ensures
        same_cache_contents(*final(caches), *old(caches)),
        final(caches).occupied_moves == old(caches).occupied_moves,
        final(caches).occupied_len == old(caches).occupied_len,
        forall|p: int|
            0 <= p < 2 ==> #[trigger] final(caches).empty_bucket_counts[p]@ == if old(caches).board_shadow[x as int][y
                as int] == EMPTY {
                let b = old(caches).value_cache[p][x as int][y as int] as int;
                old(caches).empty_bucket_counts[p]@.update(b, (old(caches).empty_bucket_counts[p][b] - 1) as u16)
            } else {
                old(caches).empty_bucket_counts[p]@
            },
{
    if caches.board_shadow[x][y] != EMPTY {
        return;
    }
    let mut player: usize = 0;
    while player < 2
        invariant
            0 <= player <= 2,
            x < BOARD_SIZE,
            y < BOARD_SIZE,
            old(caches).board_shadow[x as int][y as int] == EMPTY,
            same_cache_contents(*caches, *old(caches)),
            caches.occupied_moves == old(caches).occupied_moves,
            caches.occupied_len == old(caches).occupied_len,
            forall|p: int|
                0 <= p < 2 ==> {
                    let b = #[trigger] old(caches).value_cache[p][x as int][y as int];
                    0 <= b < DSHAPE_SIZE && old(caches).empty_bucket_counts[p][b as int] > 0
                },
            forall|p: int|
                0 <= p < 2 ==> #[trigger] caches.empty_bucket_counts[p]@ == if p < player {
                    let b = old(caches).value_cache[p][x as int][y as int] as int;
                    old(caches).empty_bucket_counts[p]@.update(b, (old(caches).empty_bucket_counts[p][b] - 1) as u16)
                } else {
                    old(caches).empty_bucket_counts[p]@
                },
        decreases 2 - player,
    {
        let bucket = caches.value_cache[player][x][y] as usize;
        let mut row = caches.empty_bucket_counts[player];
        assert(old(caches).value_cache[player as int][x as int][y as int] == caches.value_cache[player as int][x as int][y as int]);
        row[bucket] = row[bucket] - 1;
        caches.empty_bucket_counts[player] = row;
        player += 1;
    }
}

/// Adds the point `(x, y)` to the bucket counts of empty points, if the board
/// has it empty.
pub fn add_empty_bucket_contribution(board: &Board, caches: &mut EvalCaches, x: usize, y: usize)
    requires
        board.wf(),
        x < BOARD_SIZE,
        y < BOARD_SIZE,
        board.cell(x as int, y as int) == EMPTY ==> forall|p: int|
            0 <= p < 2 ==> {
                let b = #[trigger] old(caches).value_cache[p][x as int][y as int];
                0 <= b < DSHAPE_SIZE && old(caches).empty_bucket_counts[p][b as int] < u16::MAX
            },
    ensures
        same_cache_contents(*final(caches), *old(caches)),
        final(caches).occupied_moves == old(caches).occupied_moves,
        final(caches).occupied_len == old(caches).occupied_len,
        forall|p: int|
            0 <= p < 2 ==> #[trigger] final(caches).empty_bucket_counts[p]@ == if board.cell(x as int, y as int)
                == EMPTY {
                let b = old(caches).value_cache[p][x as int][y as int] as int;
                old(caches).empty_bucket_counts[p]@.update(b, (old(caches).empty_bucket_counts[p][b] + 1) as u16)
            } else {
                old(caches).empty_bucket_counts[p]@
            },
{
    if board.cell_value(x, y) != EMPTY {
        return;
    }
    let mut player: usize = 0;
    while player < 2
        invariant
            0 <= player <= 2,
            x < BOARD_SIZE,
            y < BOARD_SIZE,
            same_cache_contents(*caches, *old(caches)),
            caches.occupied_moves == old(caches).occupied_moves,
            caches.occupied_len == old(caches).occupied_len,
            forall|p: int|
                0 <= p < 2 ==> {
                    let b = #[trigger] old(caches).value_cache[p][x as int][y as int];
                    0 <= b < DSHAPE_SIZE && old(caches).empty_bucket_counts[p][b as int] < u16::MAX
                },
            forall|p: int|
                0 <= p < 2 ==> #[trigger] caches.empty_bucket_counts[p]@ == if p < player {
                    let b = old(caches).value_cache[p][x as int][y as int] as int;
                    old(caches).empty_bucket_counts[p]@.update(b, (old(caches).empty_bucket_counts[p][b] + 1) as u16)
                } else {
                    old(caches).empty_bucket_counts[p]@
                },
        decreases 2 - player,
    {
        let bucket = caches.value_cache[player][x][y] as usize;
        let mut row = caches.empty_bucket_counts[player];
        assert(old(caches).value_cache[player as int][x as int][y as int] == caches.value_cache[player as int][x as int][y as int]);
        row[bucket] = row[bucket] + 1;
        caches.empty_bucket_counts[player] = row;
        player += 1;
    }
}

/// The cache index of a side: 0 for Black, 1 for White.
pub open spec fn side_index_spec(side: Side) -> int {
    if side == BLACK {
        0
    } else {
        1
    }
}

fn side_index(side: Side) -> (i: usize)
    requires
        side == BLACK || side == WHITE,
    ensures
        i == side_index_spec(side),
{
    if side == BLACK {
        0
    } else {
        1
    }
}

/// The attack level cached for `side` at `(x, y)`.
pub fn attack_level(caches: &EvalCaches, x: usize, y: usize, side: Side) -> (a: i32)
    requires
        x < BOARD_SIZE,
        y < BOARD_SIZE,
        side == BLACK || side == WHITE,
    ensures
        a == caches.attack_cache[side_index_spec(side)][x as int][y as int],
{
    caches.attack_cache[side_index(side)][x][y]
}

/// Ors the players whose caches changed into `accumulator`.
pub fn merge_changed_player(accumulator: &mut [bool; 2], changed: [bool; 2])
    ensures
        final(accumulator)@ == seq![old(accumulator)@[0] || changed@[0], old(accumulator)@[1] || changed@[1]],
{
    let a0 = accumulator[0] || changed[0];
    let a1 = accumulator[1] || changed[1];
    accumulator[0] = a0;
    accumulator[1] = a1;
    assert(accumulator@ =~= seq![old(accumulator)@[0] || changed@[0], old(accumulator)@[1] || changed@[1]]);
}

} // verus!
