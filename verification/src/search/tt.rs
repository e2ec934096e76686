//! Transposition table: two slots per bucket, each slot a pair of atomic
//! words (`key ^ data`, `data`) so that helper threads may share the table.
//!
//! What the atomics hold depends on every thread that writes them, so the
//! functions that load them state what holds of any loaded words; the packing,
//! slot choice and probe decisions are verified functions of the loaded values.
use vstd::prelude::*;

use std::sync::atomic::{AtomicU64, Ordering};
use std::sync::Arc;

use crate::constants::{HASHF_ALPHA, HASHF_BETA, HASHF_EMPTY, HASHF_EXACT};
use crate::types::Move;

verus! {

#[derive(Clone, Copy, Debug, PartialEq, Eq, Structural)]
pub struct TTEntry {
    pub key: u64,
    pub value: i32,
    pub flag: u8,
    pub depth: i32,
    pub priority: i32,
    pub best_move: Option<Move>,
}

pub open spec fn empty_entry() -> TTEntry {
    TTEntry { key: 0, value: 0, flag: HASHF_EMPTY, depth: 0, priority: 0, best_move: None }
}

impl Default for TTEntry {
    fn default() -> (e: Self)
        ensures
            e == empty_entry(),
    {
        TTEntry { key: 0, value: 0, flag: HASHF_EMPTY, depth: 0, priority: 0, best_move: None }
    }
}

#[derive(Clone, Copy, Debug, PartialEq, Eq, Structural)]
pub struct ProbeResult {
    pub value: Option<i32>,
    pub best_move: Option<Move>,
    pub hit: bool,
    pub has_window: bool,
    pub window_alpha: i32,
    pub window_beta: i32,
}

pub open spec fn probe_miss(best_move: Option<Move>) -> ProbeResult {
    ProbeResult {
        value: None,
        best_move,
        hit: false,
        has_window: false,
        window_alpha: 0,
        window_beta: 0,
    }
}

impl Default for ProbeResult {
    fn default() -> (r: Self)
        ensures
            r == probe_miss(None),
    {
        ProbeResult {
            value: None,
            best_move: None,
            hit: false,
            has_window: false,
            window_alpha: 0,
            window_beta: 0,
        }
    }
}

// ---------------------------------------------------------------------------
// Packing an entry into one data word.
// ---------------------------------------------------------------------------

pub open spec fn clamp_spec(v: i32, hi: i32) -> i32 {
    if v < 0 {
        0
    } else if v > hi {
        hi
    } else {
        v
    }
}

pub open spec fn best_move_byte(best_move: Option<Move>) -> u8 {
    match best_move {
        Some(m) => if m <= 255 {
            m as u8
        } else {
            0xFF
        },
        None => 0xFF,
    }
}

pub open spec fn value_bits(v: i32) -> u64 {
    ((v as i16) as u16 as u64) << 48u64
}

pub open spec fn flag_bits(f: u8) -> u64 {
    ((f as u64) & 3) << 46u64
}

pub open spec fn depth_bits(d: i32) -> u64 {
    (d as u64) << 38u64
}

pub open spec fn priority_bits(p: i32) -> u64 {
    (p as u64) << 22u64
}

pub open spec fn move_bits(b: u8) -> u64 {
    (b as u64) << 14u64
}

/// The data word of an entry: value (16 bits) at 48, flag (2) at 46, depth
/// (8, clamped) at 38, priority (16, clamped) at 22, best move (8, 0xFF for
/// none) at 14.
pub open spec fn pack_spec(e: TTEntry) -> u64 {
    value_bits(e.value) | flag_bits(e.flag) | depth_bits(clamp_spec(e.depth, 255)) | priority_bits(
        clamp_spec(e.priority, 65535),
    ) | move_bits(best_move_byte(e.best_move))
}

pub open spec fn unpack_spec(key: u64, data: u64) -> TTEntry {
    let best = ((data >> 14u64) & 0xFF) as u8;
    TTEntry {
        key,
        value: ((data >> 48u64) as u16) as i16 as i32,
        flag: ((data >> 46u64) & 3) as u8,
        depth: ((data >> 38u64) & 0xFF) as i32,
        priority: ((data >> 22u64) & 0xFFFF) as i32,
        best_move: if best != 0xFF {
            Some(best as Move)
        } else {
            None
        },
    }
}

/// The entry held by a slot's words for a probe of `key`: empty unless the
/// data word is set and the check word matches `key`.
pub open spec fn entry_for_key(key: u64, key_check: u64, data: u64) -> TTEntry {
    if data == 0 || (key_check ^ data) != key {
        empty_entry()
    } else {
        unpack_spec(key, data)
    }
}

/// The entry held by a slot's words, whatever its key.
pub open spec fn raw_entry(key_check: u64, data: u64) -> TTEntry {
    if data == 0 {
        empty_entry()
    } else {
        unpack_spec(key_check ^ data, data)
    }
}

/// An entry whose fields fit the packed word exactly.
pub open spec fn storable(e: TTEntry) -> bool {
    &&& i16::MIN <= e.value <= i16::MAX
    &&& e.flag <= 3
    &&& 0 <= e.depth <= 255
    &&& 0 <= e.priority <= 65535
    &&& e.best_move matches Some(m) ==> m < 255
}

fn clamp_i32(v: i32, hi: i32) -> (r: i32)
    ensures
        r == clamp_spec(v, hi),
{
    if v < 0 {
        0
    } else if v > hi {
        hi
    } else {
        v
    }
}

fn pack_entry(entry: TTEntry) -> (data: u64)
    ensures
        data == pack_spec(entry),
{
    let value: u64 = ((entry.value as i16) as u16 as u64) << 48u64;
    let flag: u64 = ((entry.flag as u64) & 3) << 46u64;
    let depth: u64 = (clamp_i32(entry.depth, 255) as u64) << 38u64;
    let priority: u64 = (clamp_i32(entry.priority, 65535) as u64) << 22u64;
    let best: u8 = match entry.best_move {
        Some(m) => if m <= 255 {
            m as u8
        } else {
            0xFF
        },
        None => 0xFF,
    };
    let best_move: u64 = (best as u64) << 14u64;
    value | flag | depth | priority | best_move
}

fn unpack_entry(key: u64, data: u64) -> (e: TTEntry)
    ensures
        e == unpack_spec(key, data),
{
    let value = ((data >> 48u64) as u16) as i16 as i32;
    let flag = ((data >> 46u64) & 3) as u8;
    let depth = ((data >> 38u64) & 0xFF) as i32;
    let priority = ((data >> 22u64) & 0xFFFF) as i32;
    let best = ((data >> 14u64) & 0xFF) as u8;
    TTEntry {
        key,
        value,
        flag,
        depth,
        priority,
        best_move: if best != 0xFF {
            Some(best as Move)
        } else {
            None
        },
    }
}

/// Unpacking the packed word of a storable entry gives the entry back.
pub proof fn lemma_pack_unpack_roundtrip(e: TTEntry)
    requires
        storable(e),
    ensures
        unpack_spec(e.key, pack_spec(e)) == e,
{
    let v = e.value;
    let f = e.flag;
    let d = e.depth;
    let p = e.priority;
    let b = best_move_byte(e.best_move);
    let data = pack_spec(e);
    assert(data == value_bits(v) | flag_bits(f) | depth_bits(d) | priority_bits(p) | move_bits(b));
    assert(((data >> 48u64) as u16) as i16 as i32 == v) by (bit_vector)
        requires
            data == value_bits(v) | flag_bits(f) | depth_bits(d) | priority_bits(p) | move_bits(b),
            i16::MIN <= v <= i16::MAX,
            0 <= d <= 255,
            0 <= p <= 65535,
    ;
    assert(((data >> 46u64) & 3) as u8 == f) by (bit_vector)
        requires
            data == value_bits(v) | flag_bits(f) | depth_bits(d) | priority_bits(p) | move_bits(b),
            f <= 3,
            0 <= d <= 255,
            0 <= p <= 65535,
    ;
    assert(((data >> 38u64) & 0xFF) as i32 == d) by (bit_vector)
        requires
            data == value_bits(v) | flag_bits(f) | depth_bits(d) | priority_bits(p) | move_bits(b),
            0 <= d <= 255,
            0 <= p <= 65535,
    ;
    assert(((data >> 22u64) & 0xFFFF) as i32 == p) by (bit_vector)
        requires
            data == value_bits(v) | flag_bits(f) | depth_bits(d) | priority_bits(p) | move_bits(b),
            0 <= d <= 255,
            0 <= p <= 65535,
    ;
    assert(((data >> 14u64) & 0xFF) as u8 == b) by (bit_vector)
        requires
            data == value_bits(v) | flag_bits(f) | depth_bits(d) | priority_bits(p) | move_bits(b),
            0 <= d <= 255,
            0 <= p <= 65535,
    ;
}

/// A slot written with a storable entry whose data word is not zero reads
/// back as that entry, both for its own key and raw.
pub proof fn lemma_slot_roundtrip(e: TTEntry)
    requires
        storable(e),
        pack_spec(e) != 0,
    ensures
        entry_for_key(e.key, e.key ^ pack_spec(e), pack_spec(e)) == e,
        raw_entry(e.key ^ pack_spec(e), pack_spec(e)) == e,
{
    let d = pack_spec(e);
    let k = e.key;
    assert((k ^ d) ^ d == k) by (bit_vector);
    lemma_pack_unpack_roundtrip(e);
}

fn entry_from_words(key: u64, key_check: u64, data: u64) -> (e: TTEntry)
    ensures
        e == entry_for_key(key, key_check, data),
{
    if data == 0 || (key_check ^ data) != key {
        return TTEntry::default();
    }
    unpack_entry(key, data)
}

fn raw_from_words(key_check: u64, data: u64) -> (e: TTEntry)
    ensures
        e == raw_entry(key_check, data),
{
    if data == 0 {
        return TTEntry::default();
    }
    unpack_entry(key_check ^ data, data)
}

/// The slot a new entry goes to: the second one when the first holds an
/// entry of higher priority, else the first.
pub fn store_slot(first: TTEntry, entry: TTEntry) -> (slot: usize)
    ensures
        slot == if first.flag != HASHF_EMPTY && first.priority > entry.priority {
            1usize
        } else {
            0usize
        },
{
    if first.flag != HASHF_EMPTY && first.priority > entry.priority {
        1
    } else {
        0
    }
}

// ---------------------------------------------------------------------------
// Probing a bucket.
// ---------------------------------------------------------------------------

/// The probe decision over the bucket's entries from `i` on, with the best
/// move of the last deep-enough-but-undecided or shallow entry so far.
pub open spec fn probe_from(
    entries: Seq<TTEntry>,
    key: u64,
    depth: i32,
    alpha: i32,
    beta: i32,
    i: int,
    fallback: Option<Move>,
) -> ProbeResult
    decreases entries.len() - i,
{
    if i >= entries.len() {
        probe_miss(fallback)
    } else {
        let e = entries[i];
        if e.key != key {
            probe_from(entries, key, depth, alpha, beta, i + 1, fallback)
        } else if e.depth >= depth && e.flag == HASHF_EXACT {
            ProbeResult { value: Some(e.value), best_move: e.best_move, hit: true, ..probe_miss(None) }
        } else if e.depth >= depth && e.flag == HASHF_ALPHA {
            if e.value <= alpha {
                ProbeResult { value: Some(e.value), best_move: None, hit: true, ..probe_miss(None) }
            } else {
                ProbeResult {
                    value: None,
                    best_move: e.best_move,
                    hit: false,
                    has_window: true,
                    window_alpha: alpha,
                    window_beta: if beta < e.value + 1 {
                        beta
                    } else {
                        (e.value + 1) as i32
                    },
                }
            }
        } else if e.depth >= depth && e.flag == HASHF_BETA {
            if e.value >= beta {
                ProbeResult { value: Some(e.value), best_move: None, hit: true, ..probe_miss(None) }
            } else {
                ProbeResult {
                    value: None,
                    best_move: e.best_move,
                    hit: false,
                    has_window: true,
                    window_alpha: if alpha > e.value {
                        alpha
                    } else {
                        e.value
                    },
                    window_beta: beta,
                }
            }
        } else {
            probe_from(entries, key, depth, alpha, beta, i + 1, e.best_move)
        }
    }
}

/// The probe answer for a loaded bucket: an exact hit, a cut by a bound, a
/// narrowed window, or a miss with a best-move hint.
pub fn probe_bucket(entries: [TTEntry; 2], key: u64, depth: i32, alpha: i32, beta: i32) -> (r:
    ProbeResult)
    requires
        entries[0].value < i32::MAX,
        entries[1].value < i32::MAX,
    ensures
        r == probe_from(entries@, key, depth, alpha, beta, 0, None),
{
    let mut fallback_best_move: Option<Move> = None;
    let mut i: usize = 0;
    while i < 2
        invariant
            i <= 2,
            entries@.len() == 2,
            entries[0].value < i32::MAX,
            entries[1].value < i32::MAX,
            probe_from(entries@, key, depth, alpha, beta, 0, None) == probe_from(
                entries@,
                key,
                depth,
                alpha,
                beta,
                i as int,
                fallback_best_move,
            ),
        decreases 2 - i,
    {
        let entry = entries[i];
        if entry.key == key {
            if entry.depth >= depth {
                if entry.flag == HASHF_EXACT {
                    return ProbeResult {
                        value: Some(entry.value),
                        best_move: entry.best_move,
                        hit: true,
                        has_window: false,
                        window_alpha: 0,
                        window_beta: 0,
                    };
                }
                if entry.flag == HASHF_ALPHA {
                    if entry.value <= alpha {
                        return ProbeResult {
                            value: Some(entry.value),
                            best_move: None,
                            hit: true,
                            has_window: false,
                            window_alpha: 0,
                            window_beta: 0,
                        };
                    }
                    let bound = entry.value + 1;
                    return ProbeResult {
                        value: None,
                        best_move: entry.best_move,
                        hit: false,
                        has_window: true,
                        window_alpha: alpha,
                        window_beta: if beta < bound {
                            beta
                        } else {
                            bound
                        },
                    };
                }
                if entry.flag == HASHF_BETA {
                    if entry.value >= beta {
                        return ProbeResult {
                            value: Some(entry.value),
                            best_move: None,
                            hit: true,
                            has_window: false,
                            window_alpha: 0,
                            window_beta: 0,
                        };
                    }
                    return ProbeResult {
                        value: None,
                        best_move: entry.best_move,
                        hit: false,
                        has_window: true,
                        window_alpha: if alpha > entry.value {
                            alpha
                        } else {
                            entry.value
                        },
                        window_beta: beta,
                    };
                }
            }
            fallback_best_move = entry.best_move;
        }
        i = i + 1;
    }
    ProbeResult {
        value: None,
        best_move: fallback_best_move,
        hit: false,
        has_window: false,
        window_alpha: 0,
        window_beta: 0,
    }
}

// ---------------------------------------------------------------------------
// The shared table.
// ---------------------------------------------------------------------------

#[derive(Debug)]
struct RawEntry {
    key_check: AtomicU64,
    data: AtomicU64,
}

#[derive(Debug)]
struct TTStorage {
    buckets: Vec<[RawEntry; 2]>,
}

/// The largest bucket-count exponent a table can be made with.
pub const MAX_TT_BUCKET_BITS: u32 = 31;

#[derive(Clone, Debug)]
pub struct TranspositionTable {
    pub bucket_mask: u64,
    storage: Arc<TTStorage>,
}

/// `std::sync::Arc::ptr_eq`: whether two handles share one allocation;
/// nothing is claimed of the answer.
#[verifier::external_body]
fn same_storage(a: &Arc<TTStorage>, b: &Arc<TTStorage>) -> (shared: bool) {
    Arc::ptr_eq(a, b)
}

fn new_raw_entry() -> RawEntry {
    RawEntry { key_check: AtomicU64::new(0), data: AtomicU64::new(0) }
}

fn load_words(entry: &RawEntry) -> (words: (u64, u64)) {
    (entry.key_check.load(Ordering::Relaxed), entry.data.load(Ordering::Relaxed))
}

fn store_words(entry: &RawEntry, key_check: u64, data: u64) {
    entry.data.store(data, Ordering::Relaxed);
    entry.key_check.store(key_check, Ordering::Relaxed);
}

fn new_storage(bucket_count: usize) -> (s: TTStorage)
    ensures
        s.buckets@.len() == bucket_count,
{
    let mut buckets: Vec<[RawEntry; 2]> = Vec::new();
    let mut i: usize = 0;
    while i < bucket_count
        invariant
            i <= bucket_count,
            buckets@.len() == i,
        decreases bucket_count - i,
    {
        buckets.push([new_raw_entry(), new_raw_entry()]);
        i = i + 1;
    }
    TTStorage { buckets }
}

/// Some pair of words: what a probe of `key` can read from a slot.
pub open spec fn loaded_for_key(e: TTEntry, key: u64) -> bool {
    exists|key_check: u64, data: u64| e == entry_for_key(key, key_check, data)
}

impl TranspositionTable {
    /// The mask selects one of the buckets.
    pub closed spec fn wf(&self) -> bool {
        &&& self.storage.buckets@.len() == self.bucket_mask + 1
        &&& self.bucket_mask < usize::MAX
    }

    pub closed spec fn count(&self) -> nat {
        self.storage.buckets@.len()
    }

    pub closed spec fn mask(&self) -> u64 {
        self.bucket_mask
    }

    /// A table of `2^bucket_bits` empty buckets.
    pub fn new(bucket_bits: u32) -> (t: Self)
        requires
            bucket_bits < usize::BITS,
        ensures
            t.wf(),
            t.mask() == (1u64 << bucket_bits) - 1,
            t.count() == t.mask() + 1,
    {
        let bucket_count: usize = 1usize << bucket_bits;
        let top: u64 = 1u64 << bucket_bits;
        assert(top >= 1 && bucket_count == top) by (bit_vector)
            requires
                bucket_count == 1usize << bucket_bits,
                top == 1u64 << bucket_bits,
                bucket_bits < usize::BITS,
        ;
        let mask: u64 = top - 1;
        TranspositionTable { bucket_mask: mask, storage: Arc::new(new_storage(bucket_count)) }
    }

    fn bucket_index(&self, key: u64) -> (i: usize)
        requires
            self.wf(),
        ensures
            i == key & self.mask(),
            i < self.count(),
    {
        let mask = self.bucket_mask;
        let masked = key & mask;
        assert(masked <= mask) by (bit_vector)
            requires
                masked == key & mask,
        ;
        masked as usize
    }

    /// The two entries of `key`'s bucket as a probe of `key` reads them.
    pub fn bucket(&self, key: u64) -> (b: [TTEntry; 2])
        requires
            self.wf(),
        ensures
            loaded_for_key(b[0], key),
            loaded_for_key(b[1], key),
    {
        let index = self.bucket_index(key);
        let bucket = &self.storage.buckets[index];
        let (k0, d0) = load_words(&bucket[0]);
        let (k1, d1) = load_words(&bucket[1]);
        let e0 = entry_from_words(key, k0, d0);
        let e1 = entry_from_words(key, k1, d1);
        [e0, e1]
    }

    pub fn bucket_count(&self) -> (n: usize)
        ensures
            n == self.count(),
    {
        self.storage.buckets.len()
    }

    /// Whether both handles use one shared storage.
    pub fn is_shared_with(&self, other: &Self) -> bool {
        same_storage(&self.storage, &other.storage)
    }

    /// A table with its own storage holding the words this table holds now.
    pub fn fork_snapshot(&self) -> (t: Self)
        requires
            self.wf(),
        ensures
            t.wf(),
            t.mask() == self.mask(),
            t.count() == self.count(),
    {
        let storage = new_storage(self.storage.buckets.len());
        let mut i: usize = 0;
        while i < self.storage.buckets.len()
            invariant
                i <= self.storage.buckets@.len(),
                storage.buckets@.len() == self.storage.buckets@.len(),
            decreases self.storage.buckets@.len() - i,
        {
            let src = &self.storage.buckets[i];
            let dst = &storage.buckets[i];
            let (k0, d0) = load_words(&src[0]);
            store_words(&dst[0], k0, d0);
            let (k1, d1) = load_words(&src[1]);
            store_words(&dst[1], k1, d1);
            i = i + 1;
        }
        TranspositionTable { bucket_mask: self.bucket_mask, storage: Arc::new(storage) }
    }

    /// Writes `entry` into its bucket, over the first slot unless that slot
    /// holds an entry of higher priority.
    pub fn store(&self, entry: TTEntry)
        requires
            self.wf(),
    {
        let index = self.bucket_index(entry.key);
        let bucket = &self.storage.buckets[index];
        let (k0, d0) = load_words(&bucket[0]);
        let first = raw_from_words(k0, d0);
        let slot = store_slot(first, entry);
        let data = pack_entry(entry);
        store_words(&bucket[slot], entry.key ^ data, data);
    }

    /// Looks `key` up: the answer is the probe decision over the entries
    /// loaded from its bucket.
    pub fn probe(&self, key: u64, depth: i32, alpha: i32, beta: i32) -> (r: ProbeResult)
        requires
            self.wf(),
        ensures
            exists|entries: [TTEntry; 2]|
                loaded_for_key(#[trigger] entries[0], key) && loaded_for_key(entries[1], key) && r
                    == probe_from(entries@, key, depth, alpha, beta, 0, None),
    {
        let entries = self.bucket(key);
        proof {
            lemma_loaded_value_small(entries[0], key);
            lemma_loaded_value_small(entries[1], key);
        }
        probe_bucket(entries, key, depth, alpha, beta)
    }
}

proof fn lemma_unpacked_value_small(key: u64, data: u64)
    ensures
        unpack_spec(key, data).value < i32::MAX,
{
    assert(((data >> 48u64) as u16) as i16 as i32 <= i16::MAX) by (bit_vector);
}

proof fn lemma_loaded_value_small(e: TTEntry, key: u64)
    requires
        loaded_for_key(e, key),
    ensures
        e.value < i32::MAX,
{
    let (kc, d) = choose|kc: u64, d: u64| e == entry_for_key(key, kc, d);
    lemma_unpacked_value_small(key, d);
}

impl Default for TranspositionTable {
    fn default() -> (t: Self)
        ensures
            t.wf(),
            t.count() == 1048576,
    {
        let t = Self::new(20);
        assert((1u64 << 20u32) - 1 == 1048575) by (bit_vector);
        t
    }
}

} // verus!
