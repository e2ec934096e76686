//! Incremental evaluation caches with undo logs.
//!
//! While a snapshot is active, every change to the shape cache and to the
//! value caches is logged with the value it replaced, so that restoring the
//! snapshot can undo the changes in reverse order.
use vstd::prelude::*;

use crate::constants::{BOARD_AREA, BOARD_SIZE, DSHAPE_SIZE};
use crate::types::Move;

verus! {

pub fn caches_backend_name() -> (s: &'static str)
    ensures
        s@ == "python"@,
{
    "python"
}

pub type BoardShadow = [[i8; BOARD_SIZE]; BOARD_SIZE];

pub type ValueCache = [[[i32; BOARD_SIZE]; BOARD_SIZE]; 2];

pub type ShapeCache = [[[[i32; 4]; BOARD_SIZE]; BOARD_SIZE]; 2];

pub type EmptyBucketCounts = [[u16; DSHAPE_SIZE]; 2];

pub type OccupiedMoves = [Move; BOARD_AREA];

/// A logged shape change: player, x, y, direction and the value it replaced.
pub type ShapeLogEntry = (usize, usize, usize, usize, i32);

/// A logged value change: player, x, y and the bucket and attack it replaced.
pub type ValueLogEntry = (usize, usize, usize, i32, i32);

#[derive(Clone, Debug, PartialEq, Eq)]
pub struct EvalSnapshot {
    pub initialized: bool,
    pub board_shadow: BoardShadow,
    pub empty_bucket_counts: EmptyBucketCounts,
    pub occupied_moves: OccupiedMoves,
    pub occupied_len: usize,
    pub shape_log_len: usize,
    pub value_log_len: usize,
}

#[derive(Clone, Debug, PartialEq, Eq)]
pub struct EvalCaches {
    pub initialized: bool,
    pub board_shadow: BoardShadow,
    pub shape_cache: ShapeCache,
    pub value_cache: ValueCache,
    pub attack_cache: ValueCache,
    pub empty_bucket_counts: EmptyBucketCounts,
    pub occupied_moves: OccupiedMoves,
    pub occupied_len: usize,
    pub shape_log: Vec<ShapeLogEntry>,
    pub value_log: Vec<ValueLogEntry>,
    pub active_snapshot_count: usize,
}

// ---------------------------------------------------------------------------
// Models of the caches as functions of their indices.
// ---------------------------------------------------------------------------

pub open spec fn shape_index_ok(p: int, x: int, y: int, d: int) -> bool {
    0 <= p < 2 && 0 <= x < 15 && 0 <= y < 15 && 0 <= d < 4
}

pub open spec fn value_index_ok(p: int, x: int, y: int) -> bool {
    0 <= p < 2 && 0 <= x < 15 && 0 <= y < 15
}

/// The shape cache as a function: its entry in range, 0 elsewhere.
pub open spec fn shape_model(c: ShapeCache) -> spec_fn(int, int, int, int) -> i32 {
    |p: int, x: int, y: int, d: int|
        if shape_index_ok(p, x, y, d) {
            c[p][x][y][d]
        } else {
            0
        }
}

/// The value and attack caches as one function: both entries in range.
pub open spec fn value_model(values: ValueCache, attacks: ValueCache) -> spec_fn(int, int, int) -> (
    i32,
    i32,
) {
    |p: int, x: int, y: int|
        if value_index_ok(p, x, y) {
            (values[p][x][y], attacks[p][x][y])
        } else {
            (0i32, 0i32)
        }
}

pub open spec fn shape_write(f: spec_fn(int, int, int, int) -> i32, p: int, x: int, y: int, d: int, v: i32) -> spec_fn(
    int,
    int,
    int,
    int,
) -> i32 {
    |p2: int, x2: int, y2: int, d2: int|
        if p2 == p && x2 == x && y2 == y && d2 == d {
            v
        } else {
            f(p2, x2, y2, d2)
        }
}

pub open spec fn value_write(f: spec_fn(int, int, int) -> (i32, i32), p: int, x: int, y: int, v: (i32, i32)) -> spec_fn(
    int,
    int,
    int,
) -> (i32, i32) {
    |p2: int, x2: int, y2: int|
        if p2 == p && x2 == x && y2 == y {
            v
        } else {
            f(p2, x2, y2)
        }
}

/// Undoing the shape log down to `n` entries: each entry, last first, puts
/// back the value it replaced.
pub open spec fn undo_shapes(f: spec_fn(int, int, int, int) -> i32, log: Seq<ShapeLogEntry>, n: int) -> spec_fn(
    int,
    int,
    int,
    int,
) -> i32
    decreases log.len(),
{
    if log.len() == 0 || log.len() <= n {
        f
    } else {
        let e = log.last();
        undo_shapes(shape_write(f, e.0 as int, e.1 as int, e.2 as int, e.3 as int, e.4), log.drop_last(), n)
    }
}

pub open spec fn undo_values(f: spec_fn(int, int, int) -> (i32, i32), log: Seq<ValueLogEntry>, n: int) -> spec_fn(
    int,
    int,
    int,
) -> (i32, i32)
    decreases log.len(),
{
    if log.len() == 0 || log.len() <= n {
        f
    } else {
        let e = log.last();
        undo_values(value_write(f, e.0 as int, e.1 as int, e.2 as int, (e.3, e.4)), log.drop_last(), n)
    }
}

/// A shape write that is logged as `set_shape_value` logs it (the old
/// value, when it changes) is undone by rolling the log back to any length
/// it had before the write: so a snapshot taken before any sequence of such
/// writes, inner snapshots restored first, gets its shapes back.
pub proof fn lemma_logged_shape_write_undone(
    f: spec_fn(int, int, int, int) -> i32,
    log: Seq<ShapeLogEntry>,
    n: int,
    p: usize,
    x: usize,
    y: usize,
    d: usize,
    v: i32,
)
    requires
        0 <= n <= log.len(),
    ensures
        ({
            let old_v = f(p as int, x as int, y as int, d as int);
            let log2 = if old_v != v {
                log.push((p, x, y, d, old_v))
            } else {
                log
            };
            undo_shapes(shape_write(f, p as int, x as int, y as int, d as int, v), log2, n) == undo_shapes(f, log, n)
        }),
{
    let old_v = f(p as int, x as int, y as int, d as int);
    let f2 = shape_write(f, p as int, x as int, y as int, d as int, v);
    if old_v == v {
        assert(f2 =~= f);
    } else {
        let log2 = log.push((p, x, y, d, old_v));
        assert(log2.drop_last() =~= log);
        assert(shape_write(f2, p as int, x as int, y as int, d as int, old_v) =~= f);
    }
}

/// Undoing to the current length changes nothing.
pub proof fn lemma_undo_to_current_length(
    shapes: spec_fn(int, int, int, int) -> i32,
    shape_log: Seq<ShapeLogEntry>,
    values: spec_fn(int, int, int) -> (i32, i32),
    value_log: Seq<ValueLogEntry>,
)
    ensures
        undo_shapes(shapes, shape_log, shape_log.len() as int) == shapes,
        undo_values(values, value_log, value_log.len() as int) == values,
{
}

/// A logged write is undone by its log entry: undoing past it gives what
/// undoing gave before the write.
pub proof fn lemma_logged_shape_write_is_undone(
    f: spec_fn(int, int, int, int) -> i32,
    log: Seq<ShapeLogEntry>,
    n: int,
    e: ShapeLogEntry,
    v: i32,
)
    requires
        0 <= n <= log.len(),
        e.4 == f(e.0 as int, e.1 as int, e.2 as int, e.3 as int),
    ensures
        undo_shapes(shape_write(f, e.0 as int, e.1 as int, e.2 as int, e.3 as int, v), log.push(e), n)
            == undo_shapes(f, log, n),
{
    let g = shape_write(f, e.0 as int, e.1 as int, e.2 as int, e.3 as int, v);
    assert(shape_write(g, e.0 as int, e.1 as int, e.2 as int, e.3 as int, e.4) =~= f);
    assert(log.push(e).drop_last() =~= log);
}

/// An unlogged write of the value already held changes nothing.
pub proof fn lemma_same_shape_write(f: spec_fn(int, int, int, int) -> i32, p: int, x: int, y: int, d: int)
    ensures
        shape_write(f, p, x, y, d, f(p, x, y, d)) == f,
{
    assert(shape_write(f, p, x, y, d, f(p, x, y, d)) =~= f);
}

pub proof fn lemma_logged_value_write_is_undone(
    f: spec_fn(int, int, int) -> (i32, i32),
    log: Seq<ValueLogEntry>,
    n: int,
    e: ValueLogEntry,
    v: (i32, i32),
)
    requires
        0 <= n <= log.len(),
        (e.3, e.4) == f(e.0 as int, e.1 as int, e.2 as int),
    ensures
        undo_values(value_write(f, e.0 as int, e.1 as int, e.2 as int, v), log.push(e), n)
            == undo_values(f, log, n),
{
    let g = value_write(f, e.0 as int, e.1 as int, e.2 as int, v);
    assert(value_write(g, e.0 as int, e.1 as int, e.2 as int, (e.3, e.4)) =~= f);
    assert(log.push(e).drop_last() =~= log);
}

fn zero_shape_cache() -> (c: ShapeCache)
    ensures
        forall|p: int, x: int, y: int, d: int|
            shape_index_ok(p, x, y, d) ==> #[trigger] shape_model(c)(p, x, y, d) == 0,
{
    let cell: [i32; 4] = [0i32; 4];
    let column: [[i32; 4]; BOARD_SIZE] = [cell; BOARD_SIZE];
    let plane: [[[i32; 4]; BOARD_SIZE]; BOARD_SIZE] = [column; BOARD_SIZE];
    let c: ShapeCache = [plane; 2];
    c
}

fn zero_value_cache() -> (c: ValueCache)
    ensures
        forall|p: int, x: int, y: int| value_index_ok(p, x, y) ==> #[trigger] c[p][x][y] == 0,
{
    let column: [i32; BOARD_SIZE] = [0i32; BOARD_SIZE];
    let plane: [[i32; BOARD_SIZE]; BOARD_SIZE] = [column; BOARD_SIZE];
    [plane; 2]
}

fn copy_shape_log(v: &Vec<ShapeLogEntry>) -> (out: Vec<ShapeLogEntry>)
    ensures
        out@ == v@,
{
    let mut out: Vec<ShapeLogEntry> = Vec::new();
    let mut i: usize = 0;
    while i < v.len()
        invariant
            i <= v@.len(),
            out@ == v@.subrange(0, i as int),
        decreases v@.len() - i,
    {
        out.push(v[i]);
        i = i + 1;
        assert(out@ =~= v@.subrange(0, i as int));
    }
    assert(out@ =~= v@);
    out
}

fn copy_value_log(v: &Vec<ValueLogEntry>) -> (out: Vec<ValueLogEntry>)
    ensures
        out@ == v@,
{
    let mut out: Vec<ValueLogEntry> = Vec::new();
    let mut i: usize = 0;
    while i < v.len()
        invariant
            i <= v@.len(),
            out@ == v@.subrange(0, i as int),
        decreases v@.len() - i,
    {
        out.push(v[i]);
        i = i + 1;
        assert(out@ =~= v@.subrange(0, i as int));
    }
    assert(out@ =~= v@);
    out
}

impl Default for EvalCaches {
    fn default() -> (c: Self)
        ensures
            c.wf(),
            !c.initialized,
            c.shape_log@.len() == 0,
            c.value_log@.len() == 0,
            c.active_snapshot_count == 0,
            c.occupied_len == 0,
    {
        Self::new()
    }
}

impl EvalCaches {
    /// Every logged change names a point of the caches.
    pub open spec fn wf(&self) -> bool {
        &&& forall|i: int|
            0 <= i < self.shape_log@.len() ==> {
                let e = #[trigger] self.shape_log@[i];
                shape_index_ok(e.0 as int, e.1 as int, e.2 as int, e.3 as int)
            }
        &&& forall|i: int|
            0 <= i < self.value_log@.len() ==> {
                let e = #[trigger] self.value_log@[i];
                value_index_ok(e.0 as int, e.1 as int, e.2 as int)
            }
    }

    pub open spec fn shapes(&self) -> spec_fn(int, int, int, int) -> i32 {
        shape_model(self.shape_cache)
    }

    pub open spec fn values(&self) -> spec_fn(int, int, int) -> (i32, i32) {
        value_model(self.value_cache, self.attack_cache)
    }

    /// Empty caches: nothing initialized, all cache entries zero, no logs.
    pub fn new() -> (c: Self)
        ensures
            c.wf(),
            !c.initialized,
            c.shape_log@.len() == 0,
            c.value_log@.len() == 0,
            c.active_snapshot_count == 0,
            c.occupied_len == 0,
            forall|p: int, x: int, y: int, d: int|
                shape_index_ok(p, x, y, d) ==> #[trigger] c.shapes()(p, x, y, d) == 0,
            forall|p: int, x: int, y: int|
                value_index_ok(p, x, y) ==> #[trigger] c.values()(p, x, y) == (0i32, 0i32),
            forall|i: int, j: int| 0 <= i < 15 && 0 <= j < 15 ==> #[trigger] c.board_shadow@[i]@[j] == 0,
            forall|p: int, k: int|
                0 <= p < 2 && 0 <= k < DSHAPE_SIZE ==> #[trigger] c.empty_bucket_counts@[p]@[k] == 0,
            forall|k: int| 0 <= k < BOARD_AREA ==> #[trigger] c.occupied_moves@[k] == 0,
    {
        let shadow_row: [i8; BOARD_SIZE] = [0i8; BOARD_SIZE];
        let counts_row: [u16; DSHAPE_SIZE] = [0u16; DSHAPE_SIZE];
        let values = zero_value_cache();
        let attacks = zero_value_cache();
        EvalCaches {
            initialized: false,
            board_shadow: [shadow_row; BOARD_SIZE],
            shape_cache: zero_shape_cache(),
            value_cache: values,
            attack_cache: attacks,
            empty_bucket_counts: [counts_row; 2],
            occupied_moves: [0u16; BOARD_AREA],
            occupied_len: 0,
            shape_log: Vec::new(),
            value_log: Vec::new(),
            active_snapshot_count: 0,
        }
    }

    /// Writes one shape entry, logging the old value while a snapshot is active.
    pub fn set_shape_value(&mut self, player: usize, x: usize, y: usize, direction: usize, value: i32)
        requires
            old(self).wf(),
            player < 2,
            x < 15,
            y < 15,
            direction < 4,
        ensures
            final(self).wf(),
            final(self).shapes() == shape_write(
                old(self).shapes(),
                player as int,
                x as int,
                y as int,
                direction as int,
                value,
            ),
            final(self).shape_log@ == if old(self).active_snapshot_count > 0 && old(self).shapes()(
                player as int,
                x as int,
                y as int,
                direction as int,
            ) != value {
                old(self).shape_log@.push(
                    (
                        player,
                        x,
                        y,
                        direction,
                        old(self).shapes()(player as int, x as int, y as int, direction as int),
                    ),
                )
            } else {
                old(self).shape_log@
            },
            final(self).values() == old(self).values(),
            final(self).value_log@ == old(self).value_log@,
            final(self).active_snapshot_count == old(self).active_snapshot_count,
            *final(self) == (EvalCaches {
                shape_cache: final(self).shape_cache,
                shape_log: final(self).shape_log,
                ..*old(self)
            }),
    {
        let old_value = self.shape_cache[player][x][y][direction];
        if old_value == value {
            proof {
                lemma_same_shape_write(
                    old(self).shapes(),
                    player as int,
                    x as int,
                    y as int,
                    direction as int,
                );
            }
            return;
        }
        if self.active_snapshot_count > 0 {
            self.shape_log.push((player, x, y, direction, old_value));
        }
        self.write_shape(player, x, y, direction, value);
    }

    fn write_shape(&mut self, player: usize, x: usize, y: usize, direction: usize, value: i32)
        requires
            player < 2,
            x < 15,
            y < 15,
            direction < 4,
        ensures
            final(self).shapes() == shape_write(
                old(self).shapes(),
                player as int,
                x as int,
                y as int,
                direction as int,
                value,
            ),
            final(self).shape_log == old(self).shape_log,
            final(self).value_cache == old(self).value_cache,
            final(self).attack_cache == old(self).attack_cache,
            final(self).value_log == old(self).value_log,
            final(self).active_snapshot_count == old(self).active_snapshot_count,
            final(self).initialized == old(self).initialized,
            final(self).board_shadow == old(self).board_shadow,
            final(self).empty_bucket_counts == old(self).empty_bucket_counts,
            final(self).occupied_moves == old(self).occupied_moves,
            final(self).occupied_len == old(self).occupied_len,
    {
        let mut plane = self.shape_cache[player];
        let mut column = plane[x];
        let mut cell = column[y];
        cell[direction] = value;
        column[y] = cell;
        plane[x] = column;
        self.shape_cache[player] = plane;
        assert(self.shapes() =~= shape_write(
            old(self).shapes(),
            player as int,
            x as int,
            y as int,
            direction as int,
            value,
        ));
    }

    fn write_values(&mut self, player: usize, x: usize, y: usize, bucket: i32, attack: i32)
        requires
            player < 2,
            x < 15,
            y < 15,
        ensures
            final(self).values() == value_write(old(self).values(), player as int, x as int, y as int, (bucket, attack)),
            final(self).shape_cache == old(self).shape_cache,
            final(self).shape_log == old(self).shape_log,
            final(self).value_log == old(self).value_log,
            final(self).active_snapshot_count == old(self).active_snapshot_count,
            final(self).initialized == old(self).initialized,
            final(self).board_shadow == old(self).board_shadow,
            final(self).empty_bucket_counts == old(self).empty_bucket_counts,
            final(self).occupied_moves == old(self).occupied_moves,
            final(self).occupied_len == old(self).occupied_len,
    {
        let mut plane = self.value_cache[player];
        let mut column = plane[x];
        column[y] = bucket;
        plane[x] = column;
        self.value_cache[player] = plane;
        let mut aplane = self.attack_cache[player];
        let mut acolumn = aplane[x];
        acolumn[y] = attack;
        aplane[x] = acolumn;
        self.attack_cache[player] = aplane;
        assert(self.values() =~= value_write(
            old(self).values(),
            player as int,
            x as int,
            y as int,
            (bucket, attack),
        ));
    }

    /// Starts a snapshot: the scalar state and the current log lengths.
    pub fn snapshot(&mut self) -> (s: EvalSnapshot)
        requires
            old(self).active_snapshot_count < usize::MAX,
        ensures
            final(self).active_snapshot_count == old(self).active_snapshot_count + 1,
            final(self).shape_cache == old(self).shape_cache,
            final(self).value_cache == old(self).value_cache,
            final(self).attack_cache == old(self).attack_cache,
            final(self).shape_log == old(self).shape_log,
            final(self).value_log == old(self).value_log,
            final(self).initialized == old(self).initialized,
            final(self).board_shadow == old(self).board_shadow,
            final(self).empty_bucket_counts == old(self).empty_bucket_counts,
            final(self).occupied_moves == old(self).occupied_moves,
            final(self).occupied_len == old(self).occupied_len,
            s.initialized == old(self).initialized,
            s.board_shadow == old(self).board_shadow,
            s.empty_bucket_counts == old(self).empty_bucket_counts,
            s.occupied_moves == old(self).occupied_moves,
            s.occupied_len == old(self).occupied_len,
            s.shape_log_len == old(self).shape_log@.len(),
            s.value_log_len == old(self).value_log@.len(),
    {
        self.active_snapshot_count = self.active_snapshot_count + 1;
        EvalSnapshot {
            initialized: self.initialized,
            board_shadow: self.board_shadow,
            empty_bucket_counts: self.empty_bucket_counts,
            occupied_moves: self.occupied_moves,
            occupied_len: self.occupied_len,
            shape_log_len: self.shape_log.len(),
            value_log_len: self.value_log.len(),
        }
    }

    /// Puts back the snapshot's scalar state and undoes the logged changes
    /// made since it was taken, last first.
    pub fn restore_snapshot(&mut self, snapshot: &EvalSnapshot)
        requires
            old(self).wf(),
        ensures
            final(self).wf(),
            final(self).initialized == snapshot.initialized,
            final(self).board_shadow == snapshot.board_shadow,
            final(self).empty_bucket_counts == snapshot.empty_bucket_counts,
            final(self).occupied_moves == snapshot.occupied_moves,
            final(self).occupied_len == snapshot.occupied_len,
            final(self).shapes() == undo_shapes(
                old(self).shapes(),
                old(self).shape_log@,
                snapshot.shape_log_len as int,
            ),
            final(self).values() == undo_values(
                old(self).values(),
                old(self).value_log@,
                snapshot.value_log_len as int,
            ),
            final(self).shape_log@ == if old(self).shape_log@.len() > snapshot.shape_log_len {
                old(self).shape_log@.subrange(0, snapshot.shape_log_len as int)
            } else {
                old(self).shape_log@
            },
            final(self).value_log@ == if old(self).value_log@.len() > snapshot.value_log_len {
                old(self).value_log@.subrange(0, snapshot.value_log_len as int)
            } else {
                old(self).value_log@
            },
            final(self).active_snapshot_count == if old(self).active_snapshot_count > 0 {
                old(self).active_snapshot_count - 1
            } else {
                0
            },
    {
        self.initialized = snapshot.initialized;
        self.board_shadow = snapshot.board_shadow;
        self.empty_bucket_counts = snapshot.empty_bucket_counts;
        self.occupied_moves = snapshot.occupied_moves;
        self.occupied_len = snapshot.occupied_len;
        let ghost n = snapshot.shape_log_len as int;
        let ghost target = undo_shapes(old(self).shapes(), old(self).shape_log@, n);
        assert(self.shape_log@ =~= old(self).shape_log@.subrange(0, self.shape_log@.len() as int));
        while self.shape_log.len() > snapshot.shape_log_len
            invariant
                self.wf(),
                n == snapshot.shape_log_len,
                undo_shapes(self.shapes(), self.shape_log@, n) == target,
                self.shape_log@ == old(self).shape_log@.subrange(0, self.shape_log@.len() as int),
                self.shape_log@.len() >= if old(self).shape_log@.len() > n {
                    n
                } else {
                    old(self).shape_log@.len() as int
                },
                self.shape_log@.len() <= old(self).shape_log@.len(),
                self.value_log == old(self).value_log,
                self.value_cache == old(self).value_cache,
                self.attack_cache == old(self).attack_cache,
                self.active_snapshot_count == old(self).active_snapshot_count,
                self.initialized == snapshot.initialized,
                self.board_shadow == snapshot.board_shadow,
                self.empty_bucket_counts == snapshot.empty_bucket_counts,
                self.occupied_moves == snapshot.occupied_moves,
                self.occupied_len == snapshot.occupied_len,
            decreases self.shape_log@.len(),
        {
            let ghost before = self.shape_log@;
            let popped = self.shape_log.pop();
            match popped {
                Some(e) => {
                    assert(e == before.last());
                    assert(self.shape_log@ == before.drop_last());
                    assert(shape_index_ok(e.0 as int, e.1 as int, e.2 as int, e.3 as int)) by {
                        assert(before[before.len() - 1] == e);
                    }
                    assert forall|i: int| 0 <= i < self.shape_log@.len() implies {
                        let f = #[trigger] self.shape_log@[i];
                        shape_index_ok(f.0 as int, f.1 as int, f.2 as int, f.3 as int)
                    } by {
                        assert(self.shape_log@[i] == before[i]);
                    }
                    self.write_shape(e.0, e.1, e.2, e.3, e.4);
                    assert(self.shape_log@ =~= old(self).shape_log@.subrange(0, self.shape_log@.len() as int));
                },
                None => {},
            }
        }
        proof {
            if old(self).shape_log@.len() > n {
                assert(self.shape_log@ =~= old(self).shape_log@.subrange(0, n));
            } else {
                assert(self.shape_log@ =~= old(self).shape_log@);
            }
        }
        let ghost m = snapshot.value_log_len as int;
        let ghost vtarget = undo_values(old(self).values(), old(self).value_log@, m);
        let ghost shapes_now = self.shapes();
        let ghost shape_log_now = self.shape_log@;
        assert(self.value_log@ =~= old(self).value_log@.subrange(0, self.value_log@.len() as int));
        while self.value_log.len() > snapshot.value_log_len
            invariant
                self.wf(),
                m == snapshot.value_log_len,
                undo_values(self.values(), self.value_log@, m) == vtarget,
                self.value_log@ == old(self).value_log@.subrange(0, self.value_log@.len() as int),
                self.value_log@.len() >= if old(self).value_log@.len() > m {
                    m
                } else {
                    old(self).value_log@.len() as int
                },
                self.value_log@.len() <= old(self).value_log@.len(),
                self.shapes() == shapes_now,
                self.shape_log@ == shape_log_now,
                self.active_snapshot_count == old(self).active_snapshot_count,
                self.initialized == snapshot.initialized,
                self.board_shadow == snapshot.board_shadow,
                self.empty_bucket_counts == snapshot.empty_bucket_counts,
                self.occupied_moves == snapshot.occupied_moves,
                self.occupied_len == snapshot.occupied_len,
            decreases self.value_log@.len(),
        {
            let ghost before = self.value_log@;
            let popped = self.value_log.pop();
            match popped {
                Some(e) => {
                    assert(e == before.last());
                    assert(self.value_log@ == before.drop_last());
                    assert(value_index_ok(e.0 as int, e.1 as int, e.2 as int)) by {
                        assert(before[before.len() - 1] == e);
                    }
                    assert forall|i: int| 0 <= i < self.value_log@.len() implies {
                        let f = #[trigger] self.value_log@[i];
                        value_index_ok(f.0 as int, f.1 as int, f.2 as int)
                    } by {
                        assert(self.value_log@[i] == before[i]);
                    }
                    self.write_values(e.0, e.1, e.2, e.3, e.4);
                    assert(self.value_log@ =~= old(self).value_log@.subrange(0, self.value_log@.len() as int));
                },
                None => {},
            }
        }
        proof {
            if old(self).value_log@.len() > m {
                assert(self.value_log@ =~= old(self).value_log@.subrange(0, m));
            } else {
                assert(self.value_log@ =~= old(self).value_log@);
            }
        }
        if self.active_snapshot_count > 0 {
            self.active_snapshot_count = self.active_snapshot_count - 1;
        }
    }

    /// A copy of the caches, logs included.
    pub fn copy(&self) -> (c: Self)
        ensures
            c.initialized == self.initialized,
            c.board_shadow == self.board_shadow,
            c.shape_cache == self.shape_cache,
            c.value_cache == self.value_cache,
            c.attack_cache == self.attack_cache,
            c.empty_bucket_counts == self.empty_bucket_counts,
            c.occupied_moves == self.occupied_moves,
            c.occupied_len == self.occupied_len,
            c.shape_log@ == self.shape_log@,
            c.value_log@ == self.value_log@,
            c.active_snapshot_count == self.active_snapshot_count,
    {
        EvalCaches {
            initialized: self.initialized,
            board_shadow: self.board_shadow,
            shape_cache: self.shape_cache,
            value_cache: self.value_cache,
            attack_cache: self.attack_cache,
            empty_bucket_counts: self.empty_bucket_counts,
            occupied_moves: self.occupied_moves,
            occupied_len: self.occupied_len,
            shape_log: copy_shape_log(&self.shape_log),
            value_log: copy_value_log(&self.value_log),
            active_snapshot_count: self.active_snapshot_count,
        }
    }

    pub fn shape_log_len(&self) -> (n: usize)
        ensures
            n == self.shape_log@.len(),
    {
        self.shape_log.len()
    }

    pub fn value_log_len(&self) -> (n: usize)
        ensures
            n == self.value_log@.len(),
    {
        self.value_log.len()
    }

    /// Takes over `other`'s caches and drops every log and snapshot.
    pub fn restore_from(&mut self, other: &Self)
        ensures
            final(self).wf(),
            final(self).initialized == other.initialized,
            final(self).board_shadow == other.board_shadow,
            final(self).shape_cache == other.shape_cache,
            final(self).value_cache == other.value_cache,
            final(self).attack_cache == other.attack_cache,
            final(self).empty_bucket_counts == other.empty_bucket_counts,
            final(self).occupied_moves == other.occupied_moves,
            final(self).occupied_len == other.occupied_len,
            final(self).shape_log@.len() == 0,
            final(self).value_log@.len() == 0,
            final(self).active_snapshot_count == 0,
    {
        self.initialized = other.initialized;
        self.board_shadow = other.board_shadow;
        self.shape_cache = other.shape_cache;
        self.value_cache = other.value_cache;
        self.attack_cache = other.attack_cache;
        self.empty_bucket_counts = other.empty_bucket_counts;
        self.occupied_moves = other.occupied_moves;
        self.occupied_len = other.occupied_len;
        self.shape_log.clear();
        self.value_log.clear();
        self.active_snapshot_count = 0;
    }

    /// Back to the empty caches of `new`.
    pub fn reset(&mut self)
        ensures
            final(self).wf(),
            !final(self).initialized,
            final(self).shape_log@.len() == 0,
            final(self).value_log@.len() == 0,
            final(self).active_snapshot_count == 0,
            final(self).occupied_len == 0,
            forall|p: int, x: int, y: int, d: int|
                shape_index_ok(p, x, y, d) ==> #[trigger] final(self).shapes()(p, x, y, d) == 0,
            forall|p: int, x: int, y: int|
                value_index_ok(p, x, y) ==> #[trigger] final(self).values()(p, x, y) == (0i32, 0i32),
            forall|i: int, j: int| 0 <= i < 15 && 0 <= j < 15 ==> #[trigger] final(self).board_shadow@[i]@[j] == 0,
            forall|p: int, k: int|
                0 <= p < 2 && 0 <= k < DSHAPE_SIZE ==> #[trigger] final(self).empty_bucket_counts@[p]@[k] == 0,
            forall|k: int| 0 <= k < BOARD_AREA ==> #[trigger] final(self).occupied_moves@[k] == 0,
    {
        *self = Self::new();
    }
}

} // verus!
