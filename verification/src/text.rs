//! Case-insensitive keyword matching for names given as text.
use vstd::prelude::*;
use vstd::string::{StringExecFns, StringSliceAdditionalSpecFns};

verus! {

/// The ASCII lower-case form of a byte: upper-case letters map to lower
/// case, every other byte stays.
pub open spec fn lower_byte(b: u8) -> u8 {
    if 65 <= b <= 90 {
        (b + 32) as u8
    } else {
        b
    }
}

/// `raw` equals `word` once its ASCII letters are put in lower case.
pub open spec fn matches_word(raw: Seq<u8>, word: Seq<u8>) -> bool {
    raw.len() == word.len() && forall|i: int| 0 <= i < raw.len() ==> lower_byte(#[trigger] raw[i])
        == word[i]
}

/// Whether `raw`, with its ASCII letters in lower case, is `word`.
pub fn ascii_lower_eq(raw: &str, word: &str) -> (b: bool)
    ensures
        b == matches_word(raw.spec_bytes(), word.spec_bytes()),
{
    let r = raw.as_bytes();
    let w = word.as_bytes();
    if r.len() != w.len() {
        return false;
    }
    let mut i: usize = 0;
    while i < r.len()
        invariant
            r@ == raw.spec_bytes(),
            w@ == word.spec_bytes(),
            r@.len() == w@.len(),
            i <= r@.len(),
            forall|j: int| 0 <= j < i ==> lower_byte(#[trigger] r@[j]) == w@[j],
        decreases r@.len() - i,
    {
        let b = r[i];
        let lowered: u8 = if 65 <= b && b <= 90 {
            b + 32
        } else {
            b
        };
        if lowered != w[i] {
            return false;
        }
        i = i + 1;
    }
    true
}

/// The message for a name that is not recognised: `what`, a colon and the
/// name as given.
pub(crate) fn unknown_name_message(what: &str, raw: &str) -> (m: String)
    ensures
        m@ == what@ + ": "@ + raw@,
{
    String::from_str(what).concat(": ").concat(raw)
}

/// The decimal digit `d`.
pub open spec fn digit_spec(d: int) -> Seq<char> {
    if d == 0 {
        "0"@
    } else if d == 1 {
        "1"@
    } else if d == 2 {
        "2"@
    } else if d == 3 {
        "3"@
    } else if d == 4 {
        "4"@
    } else if d == 5 {
        "5"@
    } else if d == 6 {
        "6"@
    } else if d == 7 {
        "7"@
    } else if d == 8 {
        "8"@
    } else {
        "9"@
    }
}

/// The decimal text of `n`, without leading zeros.
pub open spec fn decimal_spec(n: nat) -> Seq<char>
    decreases n,
{
    if n < 10 {
        digit_spec(n as int)
    } else {
        decimal_spec(n / 10) + digit_spec((n % 10) as int)
    }
}

/// The decimal text of `n`, with a minus sign before a negative number.
pub open spec fn signed_decimal_spec(n: int) -> Seq<char> {
    if n < 0 {
        "-"@ + decimal_spec((-n) as nat)
    } else {
        decimal_spec(n as nat)
    }
}

fn digit_text(d: u64) -> (t: &'static str)
    requires
        d < 10,
    ensures
        t@ == digit_spec(d as int),
{
    match d {
        0 => "0",
        1 => "1",
        2 => "2",
        3 => "3",
        4 => "4",
        5 => "5",
        6 => "6",
        7 => "7",
        8 => "8",
        _ => "9",
    }
}

/// Appends the decimal text of `n` to `s`.
pub fn append_decimal(s: &mut String, n: u64)
    ensures
        final(s)@ == old(s)@ + decimal_spec(n as nat),
    decreases n,
{
    if n >= 10 {
        append_decimal(s, n / 10);
    }
    s.append(digit_text(n % 10));
    proof {
        if n >= 10 {
            assert(old(s)@ + decimal_spec((n / 10) as nat) + digit_spec((n % 10) as int) =~= old(s)@
                + decimal_spec(n as nat));
        } else {
            assert(decimal_spec(n as nat) == digit_spec(n as int));
        }
    }
}

/// Appends the decimal text of `n`, signed, to `s`.
pub fn append_signed_decimal(s: &mut String, n: i64)
    ensures
        final(s)@ == old(s)@ + signed_decimal_spec(n as int),
{
    if n < 0 {
        s.append("-");
        let magnitude: u64 = if n == i64::MIN {
            9223372036854775808u64
        } else {
            (-n) as u64
        };
        append_decimal(s, magnitude);
        assert(old(s)@ + "-"@ + decimal_spec(magnitude as nat) =~= old(s)@ + signed_decimal_spec(
            n as int,
        ));
    } else {
        append_decimal(s, n as u64);
    }
}

/// The characters of `s`.
pub fn chars_of(s: &str) -> (v: Vec<char>)
    ensures
        v@ == s@,
{
    broadcast use vstd::string::axiom_spec_iter;

    let mut v: Vec<char> = Vec::new();
    for c in it: s.chars()
        invariant
            v@ == it.seq().take(it.index() as int),
    {
        v.push(c);
        assert(v@ =~= it.seq().take(it.index() + 1));
    }
    assert(v@ =~= s@);
    v
}

// ---------------------------------------------------------------------------
// ASCII case.
// ---------------------------------------------------------------------------

/// The ASCII upper-case form of a character code.
pub open spec fn upper_code(n: u32) -> u32 {
    if 97 <= n <= 122 {
        (n - 32) as u32
    } else {
        n
    }
}

/// The ASCII lower-case form of a character code.
pub open spec fn lower_code(n: u32) -> u32 {
    if 65 <= n <= 90 {
        (n + 32) as u32
    } else {
        n
    }
}

/// `w` in ASCII upper case is `word`.
pub open spec fn matches_upper(w: Seq<char>, word: Seq<char>) -> bool {
    w.len() == word.len() && forall|i: int| 0 <= i < w.len() ==> upper_code(#[trigger] w[i] as u32) == word[i] as u32
}

/// `w` in ASCII lower case is `word`.
pub open spec fn matches_lower(w: Seq<char>, word: Seq<char>) -> bool {
    w.len() == word.len() && forall|i: int| 0 <= i < w.len() ==> lower_code(#[trigger] w[i] as u32) == word[i] as u32
}

/// `w` equals `word` up to ASCII case.
pub open spec fn equal_ignoring_case(w: Seq<char>, word: Seq<char>) -> bool {
    w.len() == word.len() && forall|i: int|
        0 <= i < w.len() ==> lower_code(#[trigger] w[i] as u32) == lower_code(word[i] as u32)
}

/// Whether `w` in ASCII upper case is `word`.
pub fn is_upper_word(w: &Vec<char>, word: &str) -> (b: bool)
    ensures
        b == matches_upper(w@, word@),
{
    let t = chars_of(word);
    if w.len() != t.len() {
        return false;
    }
    let mut i: usize = 0;
    while i < w.len()
        invariant
            t@ == word@,
            w@.len() == t@.len(),
            i <= w@.len(),
            forall|k: int| 0 <= k < i ==> upper_code(#[trigger] w@[k] as u32) == t@[k] as u32,
        decreases w@.len() - i,
    {
        let n = w[i] as u32;
        let u = if 97 <= n && n <= 122 {
            n - 32
        } else {
            n
        };
        if u != t[i] as u32 {
            return false;
        }
        i = i + 1;
    }
    true
}

/// Whether `w` in ASCII lower case is `word`.
pub fn is_lower_word(w: &Vec<char>, word: &str) -> (b: bool)
    ensures
        b == matches_lower(w@, word@),
{
    let t = chars_of(word);
    if w.len() != t.len() {
        return false;
    }
    let mut i: usize = 0;
    while i < w.len()
        invariant
            t@ == word@,
            w@.len() == t@.len(),
            i <= w@.len(),
            forall|k: int| 0 <= k < i ==> lower_code(#[trigger] w@[k] as u32) == t@[k] as u32,
        decreases w@.len() - i,
    {
        let n = w[i] as u32;
        let l = if 65 <= n && n <= 90 {
            n + 32
        } else {
            n
        };
        if l != t[i] as u32 {
            return false;
        }
        i = i + 1;
    }
    true
}

/// Whether `w` equals `word` up to ASCII case.
pub fn eq_ignore_case(w: &Vec<char>, word: &str) -> (b: bool)
    ensures
        b == equal_ignoring_case(w@, word@),
{
    let t = chars_of(word);
    if w.len() != t.len() {
        return false;
    }
    let mut i: usize = 0;
    while i < w.len()
        invariant
            t@ == word@,
            w@.len() == t@.len(),
            i <= w@.len(),
            forall|k: int| 0 <= k < i ==> lower_code(#[trigger] w@[k] as u32) == lower_code(t@[k] as u32),
        decreases w@.len() - i,
    {
        let n = w[i] as u32;
        let m = t[i] as u32;
        let a = if 65 <= n && n <= 90 {
            n + 32
        } else {
            n
        };
        let b = if 65 <= m && m <= 90 {
            m + 32
        } else {
            m
        };
        if a != b {
            return false;
        }
        i = i + 1;
    }
    true
}

} // verus!
