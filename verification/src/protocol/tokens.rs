//! Splitting protocol lines into words and reading decimal numbers, on the
//! characters of a line.
//!
//! Whitespace is the Unicode `White_Space` property, as for `str::trim` and
//! `str::split_whitespace`; numbers follow the grammar of the standard
//! integer parsers: an optional sign, then at least one ASCII digit.
use vstd::prelude::*;


verus! {

/// The characters with the Unicode `White_Space` property.
pub open spec fn is_white_space(c: char) -> bool {
    let n = c as u32;
    (0x09 <= n <= 0x0D) || n == 0x20 || n == 0x85 || n == 0xA0 || n == 0x1680 || (0x2000 <= n <= 0x200A)
        || n == 0x2028 || n == 0x2029 || n == 0x202F || n == 0x205F || n == 0x3000
}

pub fn white_space(c: char) -> (b: bool)
    ensures
        b == is_white_space(c),
{
    let n = c as u32;
    (0x09 <= n && n <= 0x0D) || n == 0x20 || n == 0x85 || n == 0xA0 || n == 0x1680 || (0x2000 <= n
        && n <= 0x200A) || n == 0x2028 || n == 0x2029 || n == 0x202F || n == 0x205F || n == 0x3000
}

// ---------------------------------------------------------------------------
// Trimming.
// ---------------------------------------------------------------------------

/// `s` without its leading whitespace.
pub open spec fn trim_start(s: Seq<char>) -> Seq<char>
    decreases s.len(),
{
    if s.len() > 0 && is_white_space(s[0]) {
        trim_start(s.drop_first())
    } else {
        s
    }
}

/// `s` without its trailing whitespace.
pub open spec fn trim_end(s: Seq<char>) -> Seq<char>
    decreases s.len(),
{
    if s.len() > 0 && is_white_space(s.last()) {
        trim_end(s.drop_last())
    } else {
        s
    }
}

/// `s` without leading and trailing whitespace.
pub open spec fn trimmed(s: Seq<char>) -> Seq<char> {
    trim_end(trim_start(s))
}

proof fn lemma_trim_start_skip(s: Seq<char>, i: int)
    requires
        0 <= i <= s.len(),
        forall|k: int| 0 <= k < i ==> is_white_space(#[trigger] s[k]),
    ensures
        trim_start(s) == trim_start(s.subrange(i, s.len() as int)),
    decreases i,
{
    if i > 0 {
        lemma_trim_start_skip(s, i - 1);
        let t = s.subrange(i - 1, s.len() as int);
        assert(t[0] == s[i - 1]);
        assert(t.drop_first() =~= s.subrange(i, s.len() as int));
    } else {
        assert(s.subrange(0, s.len() as int) =~= s);
    }
}

proof fn lemma_trim_end_skip(s: Seq<char>, j: int)
    requires
        0 <= j <= s.len(),
        forall|k: int| j <= k < s.len() ==> is_white_space(#[trigger] s[k]),
    ensures
        trim_end(s) == trim_end(s.subrange(0, j)),
    decreases s.len() - j,
{
    if j < s.len() {
        lemma_trim_end_skip(s, j + 1);
        let t = s.subrange(0, j + 1);
        assert(t.last() == s[j]);
        assert(t.drop_last() =~= s.subrange(0, j));
    } else {
        assert(s.subrange(0, j) =~= s);
    }
}

/// The characters of `s` without leading and trailing whitespace.
pub fn trim_chars(s: &Vec<char>) -> (t: Vec<char>)
    ensures
        t@ == trimmed(s@),
{
    let n = s.len();
    let mut i: usize = 0;
    while i < n && white_space(s[i])
        invariant
            n == s@.len(),
            i <= n,
            forall|k: int| 0 <= k < i ==> is_white_space(#[trigger] s@[k]),
        decreases n - i,
    {
        i = i + 1;
    }
    proof {
        lemma_trim_start_skip(s@, i as int);
    }
    let mut j: usize = n;
    while j > i && white_space(s[j - 1])
        invariant
            n == s@.len(),
            i <= j <= n,
            forall|k: int| j <= k < n ==> is_white_space(#[trigger] s@[k]),
        decreases j,
    {
        j = j - 1;
    }
    let ghost u = s@.subrange(i as int, n as int);
    proof {
        assert(i == n || !is_white_space(s@[i as int]));
        assert(trim_start(u) == u) by {
            if u.len() > 0 {
                assert(u[0] == s@[i as int]);
            }
        }
        lemma_trim_end_skip(u, j - i);
        assert(u.subrange(0, j - i) =~= s@.subrange(i as int, j as int));
        let w = s@.subrange(i as int, j as int);
        assert(trim_end(w) == w) by {
            if w.len() > 0 {
                assert(w.last() == s@[j - 1]);
            }
        }
    }
    let mut t: Vec<char> = Vec::new();
    let mut k: usize = i;
    while k < j
        invariant
            n == s@.len(),
            i <= k <= j <= n,
            t@ == s@.subrange(i as int, k as int),
        decreases j - k,
    {
        t.push(s[k]);
        k = k + 1;
        assert(t@ =~= s@.subrange(i as int, k as int));
    }
    t
}

// ---------------------------------------------------------------------------
// Splitting into fields and words.
// ---------------------------------------------------------------------------

/// The pieces of `s` between the characters `sep` picks out, empty pieces
/// included: a separator starts a new piece, another character extends the
/// last one.
pub open spec fn fields(s: Seq<char>, sep: spec_fn(char) -> bool) -> Seq<Seq<char>>
    decreases s.len(),
{
    if s.len() == 0 {
        seq![Seq::<char>::empty()]
    } else {
        let f = fields(s.drop_last(), sep);
        if sep(s.last()) {
            f.push(Seq::<char>::empty())
        } else {
            f.update(f.len() - 1, f.last().push(s.last()))
        }
    }
}

proof fn lemma_fields_nonempty(s: Seq<char>, sep: spec_fn(char) -> bool)
    ensures
        fields(s, sep).len() >= 1,
    decreases s.len(),
{
    if s.len() > 0 {
        lemma_fields_nonempty(s.drop_last(), sep);
    }
}

pub open spec fn comma(c: char) -> bool {
    c == ','
}

/// The words of `s`: the non-empty pieces between runs of whitespace.
pub open spec fn words(s: Seq<char>) -> Seq<Seq<char>> {
    fields(s, |c: char| is_white_space(c)).filter(|w: Seq<char>| w.len() > 0)
}

pub open spec fn views(v: Seq<Vec<char>>) -> Seq<Seq<char>> {
    v.map_values(|w: Vec<char>| w@)
}

/// The separator test of `split_fields`: the given character, or else
/// whitespace.
pub open spec fn separator(sep: Option<char>) -> spec_fn(char) -> bool {
    match sep {
        Some(ch) => |c: char| c == ch,
        None => |c: char| is_white_space(c),
    }
}

/// Splits `s` at every occurrence of the separator `sep`, or else at every
/// whitespace character.
fn split_fields(s: &Vec<char>, sep_char: Option<char>) -> (f: Vec<Vec<char>>)
    ensures
        views(f@) == fields(s@, separator(sep_char)),
{
    let ghost sep = separator(sep_char);
    let mut out: Vec<Vec<char>> = Vec::new();
    let mut current: Vec<char> = Vec::new();
    let mut i: usize = 0;
    while i < s.len()
        invariant
            i <= s@.len(),
            sep == separator(sep_char),
            views(out@).push(current@) == fields(s@.take(i as int), sep),
        decreases s@.len() - i,
    {
        let c = s[i];
        let is_sep = match sep_char {
            Some(ch) => c == ch,
            None => white_space(c),
        };
        let ghost before = views(out@).push(current@);
        proof {
            assert(s@.take(i + 1).drop_last() =~= s@.take(i as int));
            assert(s@.take(i + 1).last() == c);
            lemma_fields_nonempty(s@.take(i as int), sep);
        }
        if is_sep {
            let finished = current;
            out.push(finished);
            current = Vec::new();
            proof {
                assert(views(out@) =~= before);
                assert(views(out@).push(current@) =~= fields(s@.take(i as int), sep).push(Seq::empty()));
            }
        } else {
            current.push(c);
            proof {
                assert(views(out@).push(current@) =~= before.update(
                    before.len() - 1,
                    before.last().push(c),
                ));
            }
        }
        i = i + 1;
    }
    proof {
        assert(s@.take(s@.len() as int) =~= s@);
    }
    let ghost before = views(out@).push(current@);
    out.push(current);
    proof {
        assert(views(out@) =~= before);
    }
    out
}

/// The pieces of `s` between occurrences of `sep`.
pub fn char_fields(s: &Vec<char>, sep: char) -> (f: Vec<Vec<char>>)
    ensures
        views(f@) == fields(s@, |c: char| c == sep),
{
    let f = split_fields(s, Some(sep));
    assert(separator(Some(sep)) =~= (|c: char| c == sep));
    f
}

/// The pieces of `s` between commas.
pub fn comma_fields(s: &Vec<char>) -> (f: Vec<Vec<char>>)
    ensures
        views(f@) == fields(s@, |c: char| comma(c)),
{
    let f = split_fields(s, Some(','));
    assert(separator(Some(',')) =~= (|c: char| comma(c)));
    f
}

/// The words of `s`.
pub fn split_words(s: &Vec<char>) -> (w: Vec<Vec<char>>)
    ensures
        views(w@) == words(s@),
{
    let all = split_fields(s, None);
    assert(separator(None) =~= (|c: char| is_white_space(c)));
    let ghost keep = |w: Seq<char>| w.len() > 0;
    let mut out: Vec<Vec<char>> = Vec::new();
    let mut i: usize = 0;
    while i < all.len()
        invariant
            i <= all@.len(),
            keep == (|w: Seq<char>| w.len() > 0),
            views(out@) == views(all@).take(i as int).filter(keep),
        decreases all@.len() - i,
    {
        let piece = &all[i];
        proof {
            reveal(Seq::filter);
            let next = views(all@).take(i + 1);
            assert(next.drop_last() =~= views(all@).take(i as int));
            assert(next.last() == piece@);
        }
        if piece.len() > 0 {
            let copy = copy_chars(piece);
            let ghost before = views(out@);
            out.push(copy);
            proof {
                assert(views(out@) =~= before.push(piece@));
            }
        }
        i = i + 1;
    }
    proof {
        assert(views(all@).take(all@.len() as int) =~= views(all@));
    }
    out
}

/// A copy of `s`.
pub fn copy_chars(s: &Vec<char>) -> (t: Vec<char>)
    ensures
        t@ == s@,
{
    let mut t: Vec<char> = Vec::new();
    let mut i: usize = 0;
    while i < s.len()
        invariant
            i <= s@.len(),
            t@ == s@.take(i as int),
        decreases s@.len() - i,
    {
        t.push(s[i]);
        i = i + 1;
        assert(t@ =~= s@.take(i as int));
    }
    assert(t@ =~= s@);
    t
}

// ---------------------------------------------------------------------------
// Decimal numbers.
// ---------------------------------------------------------------------------

pub open spec fn is_digit(c: char) -> bool {
    '0' <= c <= '9'
}

pub open spec fn all_digits(s: Seq<char>) -> bool {
    forall|i: int| 0 <= i < s.len() ==> is_digit(#[trigger] s[i])
}

/// The value of a string of decimal digits.
pub open spec fn digits_value(s: Seq<char>) -> int
    decreases s.len(),
{
    if s.len() == 0 {
        0
    } else {
        digits_value(s.drop_last()) * 10 + (s.last() as int - '0' as int)
    }
}

/// The integer `s` spells, if it lies in `lo..=hi`: an optional `+` (or `-`
/// when `signed`), then one or more ASCII digits; a sign alone spells none.
pub open spec fn parse_integer(s: Seq<char>, signed: bool, lo: int, hi: int) -> Option<int> {
    if s.len() == 0 {
        None
    } else if (s[0] == '+' || s[0] == '-') && s.len() == 1 {
        None
    } else {
        let neg = s[0] == '-' && signed;
        let ds = if s[0] == '+' || neg {
            s.drop_first()
        } else {
            s
        };
        let v = if neg {
            -digits_value(ds)
        } else {
            digits_value(ds)
        };
        if all_digits(ds) && lo <= v <= hi {
            Some(v)
        } else {
            None
        }
    }
}

proof fn lemma_digits_value_nonneg(s: Seq<char>)
    requires
        all_digits(s),
    ensures
        digits_value(s) >= 0,
    decreases s.len(),
{
    if s.len() > 0 {
        lemma_digits_value_nonneg(s.drop_last());
    }
}

/// A prefix of a digit string is worth at most the whole string.
proof fn lemma_digits_value_prefix(s: Seq<char>, k: int)
    requires
        all_digits(s),
        0 <= k <= s.len(),
    ensures
        digits_value(s.take(k)) <= digits_value(s),
    decreases s.len() - k,
{
    if k < s.len() {
        lemma_digits_value_prefix(s, k + 1);
        assert(s.take(k + 1).drop_last() =~= s.take(k));
        lemma_digits_value_nonneg(s.take(k));
    } else {
        assert(s.take(k) =~= s);
    }
}

/// Reads the digits `s[start..]` as a number no greater than `cap`, or `None`
/// when one is not a digit or the value exceeds `cap`.
fn read_digits(s: &Vec<char>, start: usize, cap: u128) -> (r: Option<u128>)
    requires
        start <= s@.len(),
        9 <= cap <= 0x1_0000_0000_0000_0000,
    ensures
        ({
            let ds = s@.subrange(start as int, s@.len() as int);
            match r {
                Some(v) => all_digits(ds) && v == digits_value(ds) && v <= cap,
                None => !all_digits(ds) || digits_value(ds) > cap,
            }
        }),
{
    let ghost ds = s@.subrange(start as int, s@.len() as int);
    let mut value: u128 = 0;
    let mut i: usize = start;
    while i < s.len()
        invariant
            start <= i <= s@.len(),
            ds == s@.subrange(start as int, s@.len() as int),
            9 <= cap <= 0x1_0000_0000_0000_0000,
            all_digits(ds.take(i - start)),
            value == digits_value(ds.take(i - start)),
            value <= cap,
        decreases s@.len() - i,
    {
        let c = s[i];
        if !('0' <= c && c <= '9') {
            proof {
                assert(ds[i - start] == c);
            }
            return None;
        }
        let d = (c as u32 - '0' as u32) as u128;
        proof {
            assert(ds.take(i - start + 1).drop_last() =~= ds.take(i - start));
            assert(ds.take(i - start + 1).last() == c);
        }
        if value > (cap - d) / 10 {
            proof {
                assert(value * 10 + d > cap) by (nonlinear_arith)
                    requires
                        value > (cap - d) / 10,
                        d <= 9,
                ;
                if all_digits(ds) {
                    lemma_digits_value_prefix(ds, i - start + 1);
                }
            }
            return None;
        }
        proof {
            assert(value * 10 + d <= cap) by (nonlinear_arith)
                requires
                    value <= (cap - d) / 10,
                    d <= cap,
            ;
        }
        value = value * 10 + d;
        i = i + 1;
    }
    proof {
        assert(ds.take(i - start) =~= ds);
    }
    Some(value)
}

/// The `i32` that `s` spells.
pub fn parse_i32_chars(s: &Vec<char>) -> (r: Option<i32>)
    ensures
        match parse_integer(s@, true, i32::MIN as int, i32::MAX as int) {
            Some(v) => r == Some(v as i32),
            None => r.is_none(),
        },
{
    let n = s.len();
    if n == 0 {
        return None;
    }
    let first = s[0];
    if (first == '+' || first == '-') && n == 1 {
        return None;
    }
    let neg = first == '-';
    let start: usize = if first == '+' || neg {
        1
    } else {
        0
    };
    let cap: u128 = if neg {
        0x8000_0000
    } else {
        0x7fff_ffff
    };
    let ghost ds = s@.subrange(start as int, n as int);
    proof {
        if start == 1 {
            assert(ds =~= s@.drop_first());
        } else {
            assert(ds =~= s@);
        }
    }
    match read_digits(s, start, cap) {
        Some(v) => {
            if neg {
                Some((0 - v as i64) as i32)
            } else {
                Some(v as i32)
            }
        },
        None => None,
    }
}

/// The unsigned number no greater than `max` that `s` spells.
fn parse_unsigned_chars(s: &Vec<char>, max: u128) -> (r: Option<u128>)
    requires
        9 <= max <= 0x1_0000_0000_0000_0000,
    ensures
        match parse_integer(s@, false, 0, max as int) {
            Some(v) => r == Some(v as u128),
            None => r.is_none(),
        },
{
    let n = s.len();
    if n == 0 {
        return None;
    }
    let first = s[0];
    if (first == '+' || first == '-') && n == 1 {
        return None;
    }
    let start: usize = if first == '+' {
        1
    } else {
        0
    };
    let ghost ds = s@.subrange(start as int, n as int);
    proof {
        if start == 1 {
            assert(ds =~= s@.drop_first());
        } else {
            assert(ds =~= s@);
        }
        if all_digits(ds) {
            lemma_digits_value_nonneg(ds);
        }
    }
    read_digits(s, start, max)
}

/// The `u32` that `s` spells.
pub fn parse_u32_chars(s: &Vec<char>) -> (r: Option<u32>)
    ensures
        match parse_integer(s@, false, 0, u32::MAX as int) {
            Some(v) => r == Some(v as u32),
            None => r.is_none(),
        },
{
    match parse_unsigned_chars(s, 0xffff_ffff) {
        Some(v) => Some(v as u32),
        None => None,
    }
}

/// The `usize` that `s` spells.
pub fn parse_usize_chars(s: &Vec<char>) -> (r: Option<usize>)
    ensures
        match parse_integer(s@, false, 0, usize::MAX as int) {
            Some(v) => r == Some(v as usize),
            None => r.is_none(),
        },
{
    match parse_unsigned_chars(s, usize::MAX as u128) {
        Some(v) => Some(v as usize),
        None => None,
    }
}

/// The `i32` that `s` spells once trimmed.
pub fn parse_one_i32(s: &Vec<char>) -> (r: Option<i32>)
    ensures
        match parse_integer(trimmed(s@), true, i32::MIN as int, i32::MAX as int) {
            Some(v) => r == Some(v as i32),
            None => r.is_none(),
        },
{
    parse_i32_chars(&trim_chars(s))
}

/// The `i64` that `s` spells once trimmed.
pub fn parse_one_i64(s: &Vec<char>) -> (r: Option<i64>)
    ensures
        match parse_integer(trimmed(s@), true, i64::MIN as int, i64::MAX as int) {
            Some(v) => r == Some(v as i64),
            None => r.is_none(),
        },
{
    let t = trim_chars(s);
    let n = t.len();
    if n == 0 {
        return None;
    }
    let first = t[0];
    if (first == '+' || first == '-') && n == 1 {
        return None;
    }
    let neg = first == '-';
    let start: usize = if first == '+' || neg {
        1
    } else {
        0
    };
    let cap: u128 = if neg {
        0x8000_0000_0000_0000
    } else {
        0x7fff_ffff_ffff_ffff
    };
    let ghost ds = t@.subrange(start as int, n as int);
    proof {
        if start == 1 {
            assert(ds =~= t@.drop_first());
        } else {
            assert(ds =~= t@);
        }
    }
    match read_digits(&t, start, cap) {
        Some(v) => {
            if neg {
                Some((0 - v as i128) as i64)
            } else {
                Some(v as i64)
            }
        },
        None => None,
    }
}

/// The first index of `c` in `s`, or the length of `s` if it does not occur.
pub open spec fn first_index_of(s: Seq<char>, c: char) -> int
    decreases s.len(),
{
    if s.len() == 0 {
        0
    } else if s[0] == c {
        0
    } else {
        1 + first_index_of(s.drop_first(), c)
    }
}

proof fn lemma_first_index_of(s: Seq<char>, c: char, i: int)
    requires
        0 <= i <= s.len(),
        forall|k: int| 0 <= k < i ==> #[trigger] s[k] != c,
        i == s.len() || s[i] == c,
    ensures
        first_index_of(s, c) == i,
    decreases i,
{
    if i > 0 {
        lemma_first_index_of(s.drop_first(), c, i - 1);
    }
}

/// `s` split at its first comma: the part before it and the part after it,
/// if it has a comma.
pub fn split_once_comma(s: &Vec<char>) -> (r: Option<(Vec<char>, Vec<char>)>)
    ensures
        ({
            let k = first_index_of(s@, ',');
            match r {
                Some(p) => k < s@.len() && p.0@ == s@.take(k) && p.1@ == s@.skip(k + 1),
                None => k == s@.len(),
            }
        }),
{
    split_once_at(s, ',')
}

/// `s` split at the first `sep`: the part before it and the part after it,
/// if `sep` occurs.
pub fn split_once_at(s: &Vec<char>, sep: char) -> (r: Option<(Vec<char>, Vec<char>)>)
    ensures
        ({
            let k = first_index_of(s@, sep);
            match r {
                Some(p) => k < s@.len() && p.0@ == s@.take(k) && p.1@ == s@.skip(k + 1),
                None => k == s@.len(),
            }
        }),
{
    let n = s.len();
    let mut k: usize = 0;
    while k < n && s[k] != sep
        invariant
            n == s@.len(),
            k <= n,
            forall|j: int| 0 <= j < k ==> #[trigger] s@[j] != sep,
        decreases n - k,
    {
        k = k + 1;
    }
    proof {
        lemma_first_index_of(s@, sep, k as int);
    }
    if k == n {
        return None;
    }
    let mut before: Vec<char> = Vec::new();
    let mut i: usize = 0;
    while i < k
        invariant
            n == s@.len(),
            k < n,
            i <= k,
            before@ == s@.take(i as int),
        decreases k - i,
    {
        before.push(s[i]);
        i = i + 1;
        assert(before@ =~= s@.take(i as int));
    }
    let mut after: Vec<char> = Vec::new();
    let mut j: usize = k + 1;
    while j < n
        invariant
            n == s@.len(),
            k < n,
            k + 1 <= j <= n,
            after@ == s@.subrange(k + 1, j as int),
        decreases n - j,
    {
        after.push(s[j]);
        j = j + 1;
        assert(after@ =~= s@.subrange(k + 1, j as int));
    }
    assert(after@ =~= s@.skip(k + 1));
    Some((before, after))
}

/// The `u32` that `s` spells once trimmed.
pub fn parse_one_u32(s: &Vec<char>) -> (r: Option<u32>)
    ensures
        match parse_integer(trimmed(s@), false, 0, u32::MAX as int) {
            Some(v) => r == Some(v as u32),
            None => r.is_none(),
        },
{
    parse_u32_chars(&trim_chars(s))
}

/// The `usize` that `s` spells once trimmed.
pub fn parse_one_usize(s: &Vec<char>) -> (r: Option<usize>)
    ensures
        match parse_integer(trimmed(s@), false, 0, usize::MAX as int) {
            Some(v) => r == Some(v as usize),
            None => r.is_none(),
        },
{
    parse_usize_chars(&trim_chars(s))
}

proof fn lemma_trim_start_head(s: Seq<char>)
    ensures
        trim_start(s).len() > 0 ==> !is_white_space(trim_start(s)[0]),
    decreases s.len(),
{
    if s.len() > 0 && is_white_space(s[0]) {
        lemma_trim_start_head(s.drop_first());
    }
}

proof fn lemma_trim_end_prefix(s: Seq<char>)
    ensures
        trim_end(s).len() <= s.len(),
        trim_end(s) == s.take(trim_end(s).len() as int),
    decreases s.len(),
{
    if s.len() > 0 && is_white_space(s.last()) {
        lemma_trim_end_prefix(s.drop_last());
        let t = trim_end(s.drop_last());
        assert(t == s.drop_last().take(t.len() as int));
        assert(s.drop_last().take(t.len() as int) =~= s.take(t.len() as int));
    } else {
        assert(s.take(s.len() as int) =~= s);
    }
}

proof fn lemma_first_field_nonempty(s: Seq<char>, sep: spec_fn(char) -> bool)
    requires
        s.len() > 0,
        !sep(s[0]),
    ensures
        fields(s, sep).len() >= 1,
        fields(s, sep)[0].len() > 0,
    decreases s.len(),
{
    lemma_fields_nonempty(s, sep);
    let f = fields(s.drop_last(), sep);
    lemma_fields_nonempty(s.drop_last(), sep);
    if s.len() > 1 {
        assert(s.drop_last()[0] == s[0]);
        lemma_first_field_nonempty(s.drop_last(), sep);
        assert(f[0].len() > 0);
        if sep(s.last()) {
            assert(fields(s, sep) == f.push(Seq::<char>::empty()));
            assert(fields(s, sep)[0] == f[0]);
        } else {
            let g = f.update(f.len() - 1, f.last().push(s.last()));
            assert(fields(s, sep) == g);
            if f.len() == 1 {
                assert(g[0] == f.last().push(s.last()));
            } else {
                assert(g[0] == f[0]);
            }
        }
    } else {
        assert(s.drop_last().len() == 0);
        assert(f == seq![Seq::<char>::empty()]);
        assert(s.last() == s[0]);
        let g = f.update(0, f.last().push(s.last()));
        assert(fields(s, sep) == g);
        assert(g[0].len() == 1);
    }
}

/// A non-empty trimmed text has at least one word.
pub proof fn lemma_trimmed_has_word(s: Seq<char>)
    requires
        trimmed(s).len() > 0,
    ensures
        words(trimmed(s)).len() > 0,
{
    let t = trimmed(s);
    lemma_trim_start_head(s);
    lemma_trim_end_prefix(trim_start(s));
    assert(t[0] == trim_start(s)[0]);
    let sep = |c: char| is_white_space(c);
    lemma_first_field_nonempty(t, sep);
    let f = fields(t, sep);
    let keep = |w: Seq<char>| w.len() > 0;
    assert(f.contains(f[0]));
    f.lemma_filter_contains_rev(keep, f[0]);
}

} // verus!
