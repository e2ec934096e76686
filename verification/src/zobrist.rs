//! Zobrist hashing built from the classic C library `rand()` stream.
//!
//! The table is filled from the additive-feedback generator that `srand` /
//! `rand` implement in the GNU C library, so the keys agree with engines that
//! seed the host `rand()` the same way.
use vstd::prelude::*;

use crate::constants::{BLACK, BOARD_AREA, WHITE};
use crate::types::{is_valid_side, valid_side, Move, Side};

verus! {

pub const DEFAULT_SEED: u32 = 1_232_356;

pub const CLASSIC_HASH_AREA: usize = 401;

/// Number of `rand()` outputs that `srand` discards after seeding.
pub const RAND_WARMUP: usize = 344;

#[derive(Clone, Copy, Debug, PartialEq, Eq, Structural)]
pub enum ZobristError {
    InvalidMove(Move),
    InvalidSide(Side),
}

/// Truncating division of `w` by the positive `d`, as C computes it.
pub open spec fn trunc_div(w: int, d: int) -> int {
    if w >= 0 {
        w / d
    } else {
        -((-w) / d)
    }
}

/// One step of the Park–Miller generator in Schrage form used by `srand`.
pub open spec fn schrage_step(word: int) -> int {
    let hi = trunc_div(word, 127773);
    let lo = word - hi * 127773;
    let v = 16807 * lo - 2836 * hi;
    if v < 0 {
        v + 2147483647
    } else {
        v
    }
}

/// The first seed word: the seed read as a signed 32-bit value, 0 replaced by 1.
pub open spec fn seed_word(seed: u32) -> int {
    if seed == 0 {
        1
    } else if seed < 0x8000_0000 {
        seed as int
    } else {
        seed as int - 0x1_0000_0000
    }
}

/// The `i`-th seeding word (as a signed value) for `i < 31`.
pub open spec fn seed_state_word(seed: u32, i: nat) -> int
    decreases i,
{
    if i == 0 {
        seed_word(seed)
    } else {
        schrage_step(seed_state_word(seed, (i - 1) as nat))
    }
}

/// The unsigned 32-bit register sequence of the additive generator.
pub open spec fn rand_register(seed: u32, i: nat) -> u32
    decreases i,
{
    if i < 31 {
        (seed_state_word(seed, i) % 0x1_0000_0000) as u32
    } else if i < 34 {
        rand_register(seed, (i - 31) as nat)
    } else {
        ((rand_register(seed, (i - 31) as nat) as int + rand_register(seed, (i - 3) as nat) as int)
            % 0x1_0000_0000) as u32
    }
}

/// The `k`-th value `rand()` returns after `srand(seed)`.
pub open spec fn rand_output(seed: u32, k: nat) -> u32 {
    rand_register(seed, (k + RAND_WARMUP) as nat) >> 1u32
}

/// Five consecutive `rand()` values folded into one 64-bit key.
pub open spec fn mix_rand64(w0: u32, w1: u32, w2: u32, w3: u32, w4: u32) -> u64 {
    (w0 as u64) ^ ((w1 as u64) << 15u64) ^ ((w2 as u64) << 30u64) ^ ((w3 as u64) << 45u64) ^ (
    (w4 as u64) << 60u64)
}

/// The `k`-th 64-bit value of the classic key stream.
pub open spec fn classic_rand64(seed: u32, k: nat) -> u64 {
    mix_rand64(
        rand_output(seed, 5 * k),
        rand_output(seed, 5 * k + 1),
        rand_output(seed, 5 * k + 2),
        rand_output(seed, 5 * k + 3),
        rand_output(seed, 5 * k + 4),
    )
}

proof fn lemma_schrage_bounds(word: int)
    requires
        -0x8000_0000 <= word < 0x8000_0000,
    ensures
        0 <= schrage_step(word) < 2147483647,
{
    let hi = trunc_div(word, 127773);
    let lo = word - hi * 127773;
    if word >= 0 {
        assert(0 <= lo < 127773);
        assert(0 <= hi <= 16807);
    } else {
        assert(-127773 < lo <= 0);
        assert(-16808 <= hi <= 0);
    }
}

proof fn lemma_seed_state_bounds(seed: u32, i: nat)
    ensures
        -0x8000_0000 <= seed_state_word(seed, i) < 0x8000_0000,
        i > 0 ==> 0 <= seed_state_word(seed, i) < 2147483647,
    decreases i,
{
    if i > 0 {
        lemma_seed_state_bounds(seed, (i - 1) as nat);
        lemma_schrage_bounds(seed_state_word(seed, (i - 1) as nat));
    }
}

/// Computes `schrage_step` on machine integers.
fn schrage_exec(word: i64) -> (next: i64)
    requires
        -0x8000_0000 <= word < 0x8000_0000,
    ensures
        next == schrage_step(word as int),
        0 <= next < 2147483647,
{
    proof {
        lemma_schrage_bounds(word as int);
    }
    let hi: i64 = if word >= 0 {
        word / 127773
    } else {
        -((-word) / 127773)
    };
    let lo: i64 = word - hi * 127773;
    let v: i64 = 16807 * lo - 2836 * hi;
    if v < 0 {
        v + 2147483647
    } else {
        v
    }
}

/// The first `count` values of `rand()` after `srand(seed)`.
pub fn rand_stream(seed: u32, count: usize) -> (out: Vec<u32>)
    requires
        count + RAND_WARMUP < usize::MAX,
    ensures
        out@.len() == count,
        forall|k: int| 0 <= k < count ==> out@[k] == rand_output(seed, k as nat),
{
    let total = count + RAND_WARMUP;
    let mut reg: Vec<u32> = Vec::new();
    let mut word: i64 = if seed == 0 {
        1
    } else if seed < 0x8000_0000 {
        seed as i64
    } else {
        seed as i64 - 0x1_0000_0000
    };
    let mut i: usize = 0;
    while i < total
        invariant
            total == count + RAND_WARMUP,
            i <= total,
            reg@.len() == i,
            forall|j: int| 0 <= j < i ==> reg@[j] == rand_register(seed, j as nat),
            i <= 31 ==> word == seed_state_word(seed, (if i == 0 { 0 } else { i - 1 }) as nat),
            -0x8000_0000 <= word < 0x8000_0000,
        decreases total - i,
    {
        proof {
            lemma_seed_state_bounds(seed, i as nat);
        }
        if i < 31 {
            if i > 0 {
                word = schrage_exec(word);
            }
            let r: u32 = if word >= 0 {
                word as u32
            } else {
                (word + 0x1_0000_0000) as u32
            };
            assert(r == rand_register(seed, i as nat));
            reg.push(r);
        } else if i < 34 {
            let r = reg[i - 31];
            reg.push(r);
        } else {
            let r = reg[i - 31].wrapping_add(reg[i - 3]);
            reg.push(r);
        }
        i = i + 1;
    }
    let mut out: Vec<u32> = Vec::new();
    let mut k: usize = 0;
    while k < count
        invariant
            total == count + RAND_WARMUP,
            reg@.len() == total,
            forall|j: int| 0 <= j < total ==> reg@[j] == rand_register(seed, j as nat),
            k <= count,
            out@.len() == k,
            forall|j: int| 0 <= j < k ==> out@[j] == rand_output(seed, j as nat),
        decreases count - k,
    {
        out.push(reg[k + RAND_WARMUP] >> 1u32);
        k = k + 1;
    }
    out
}

/// Folds five `rand()` values into one key.
fn mix_words(w0: u32, w1: u32, w2: u32, w3: u32, w4: u32) -> (value: u64)
    ensures
        value == mix_rand64(w0, w1, w2, w3, w4),
{
    let mut value = w0 as u64;
    value = value ^ ((w1 as u64) << 15u64);
    value = value ^ ((w2 as u64) << 30u64);
    value = value ^ ((w3 as u64) << 45u64);
    value = value ^ ((w4 as u64) << 60u64);
    value
}

/// The first `count` values of the classic 64-bit key stream for `seed`.
pub fn classic_rand64_sequence(seed: u32, count: usize) -> (values: Vec<u64>)
    requires
        5 * count + RAND_WARMUP < usize::MAX,
    ensures
        values@.len() == count,
        forall|k: int| 0 <= k < count ==> values@[k] == classic_rand64(seed, k as nat),
{
    let words = rand_stream(seed, count * 5);
    let mut values: Vec<u64> = Vec::new();
    let mut k: usize = 0;
    while k < count
        invariant
            5 * count + RAND_WARMUP < usize::MAX,
            words@.len() == count * 5,
            forall|j: int| 0 <= j < count * 5 ==> words@[j] == rand_output(seed, j as nat),
            k <= count,
            values@.len() == k,
            forall|j: int| 0 <= j < k ==> values@[j] == classic_rand64(seed, j as nat),
        decreases count - k,
    {
        let b = 5 * k;
        let v = mix_words(words[b], words[b + 1], words[b + 2], words[b + 3], words[b + 4]);
        values.push(v);
        k = k + 1;
    }
    values
}

#[derive(Clone, Copy, Debug, PartialEq, Eq)]
pub struct ZobristTable {
    black: [u64; CLASSIC_HASH_AREA],
    white: [u64; CLASSIC_HASH_AREA],
    turn: u64,
}

impl ZobristTable {
    /// Key of a black stone on `index`.
    pub closed spec fn black_key(self, index: int) -> u64 {
        self.black@[index]
    }

    /// Key of a white stone on `index`.
    pub closed spec fn white_key(self, index: int) -> u64 {
        self.white@[index]
    }

    /// Key toggled when the side to move changes.
    pub closed spec fn turn_key(self) -> u64 {
        self.turn
    }

    /// Key of a stone of `side` on `index` (black keys for black, white otherwise).
    pub open spec fn stone_key(self, index: int, side: Side) -> u64 {
        if side == BLACK {
            self.black_key(index)
        } else {
            self.white_key(index)
        }
    }

    /// The table as built from `seed`: black keys first, then white keys, no turn key.
    pub open spec fn built_from(self, seed: u32) -> bool {
        &&& forall|i: int|
            0 <= i < CLASSIC_HASH_AREA ==> #[trigger] self.black_key(i) == classic_rand64(
                seed,
                i as nat,
            )
        &&& forall|i: int|
            0 <= i < CLASSIC_HASH_AREA ==> #[trigger] self.white_key(i) == classic_rand64(
                seed,
                (CLASSIC_HASH_AREA + i) as nat,
            )
        &&& self.turn_key() == 0
    }

    pub fn build(seed: u32) -> (table: Self)
        ensures
            table.built_from(seed),
    {
        let values = classic_rand64_sequence(seed, CLASSIC_HASH_AREA * 2);
        let mut black = [0u64; CLASSIC_HASH_AREA];
        let mut white = [0u64; CLASSIC_HASH_AREA];
        let mut i: usize = 0;
        while i < CLASSIC_HASH_AREA
            invariant
                values@.len() == CLASSIC_HASH_AREA * 2,
                forall|j: int|
                    0 <= j < CLASSIC_HASH_AREA * 2 ==> values@[j] == classic_rand64(seed, j as nat),
                i <= CLASSIC_HASH_AREA,
                forall|j: int| 0 <= j < i ==> black@[j] == classic_rand64(seed, j as nat),
                forall|j: int|
                    0 <= j < i ==> white@[j] == classic_rand64(
                        seed,
                        (CLASSIC_HASH_AREA + j) as nat,
                    ),
            decreases CLASSIC_HASH_AREA - i,
        {
            black[i] = values[i];
            white[i] = values[CLASSIC_HASH_AREA + i];
            i = i + 1;
        }
        ZobristTable { black, white, turn: 0 }
    }

    pub fn key_for(&self, move_: Move, side: Side) -> (key: Result<u64, ZobristError>)
        ensures
            move_ >= BOARD_AREA ==> key == Err::<u64, ZobristError>(ZobristError::InvalidMove(move_)),
            move_ < BOARD_AREA && !valid_side(side) ==> key == Err::<u64, ZobristError>(
                ZobristError::InvalidSide(side),
            ),
            move_ < BOARD_AREA && valid_side(side) ==> key == Ok::<u64, ZobristError>(
                self.stone_key(move_ as int, side),
            ),
    {
        let index = move_ as usize;
        if index >= BOARD_AREA {
            return Err(ZobristError::InvalidMove(move_));
        }
        if side == BLACK {
            return Ok(self.black[index]);
        }
        if side == WHITE {
            return Ok(self.white[index]);
        }
        Err(ZobristError::InvalidSide(side))
    }

    /// The black key on a board index.
    pub fn black_at(&self, index: usize) -> (key: u64)
        requires
            index < BOARD_AREA,
        ensures
            key == self.black_key(index as int),
    {
        self.black[index]
    }

    /// The white key on a board index.
    pub fn white_at(&self, index: usize) -> (key: u64)
        requires
            index < BOARD_AREA,
        ensures
            key == self.white_key(index as int),
    {
        self.white[index]
    }

    pub fn key_for_turn(&self) -> (key: u64)
        ensures
            key == self.turn_key(),
    {
        self.turn
    }
}

pub fn validate_side(side: Side) -> (result: Result<(), ZobristError>)
    ensures
        result == (if valid_side(side) {
            Ok::<(), ZobristError>(())
        } else {
            Err(ZobristError::InvalidSide(side))
        }),
{
    if is_valid_side(side) {
        Ok(())
    } else {
        Err(ZobristError::InvalidSide(side))
    }
}

} // verus!
