//! Character-sequence utilities shared by the configuration parser: finding
//! a separator, trimming whitespace, and parsing unsigned decimal numbers.

use vstd::prelude::*;
use vstd::string::StrSliceExecFns;

verus! {

/// The whitespace that is trimmed from keys and values: blanks, tabs and
/// carriage returns (a newline never occurs inside a line).
pub open spec fn is_space(c: char) -> bool {
    c == ' ' || c == '\t' || c == '\r'
}

/// Index of the first occurrence of `c` in `s`, or `s.len()` if none.
pub open spec fn find(s: Seq<char>, c: char) -> int
    decreases s.len(),
{
    if s.len() == 0 {
        0
    } else if s[0] == c {
        0
    } else {
        1 + find(s.drop_first(), c)
    }
}

/// Any index with the characteristic properties of `find` is `find`.
pub proof fn lemma_find_is(s: Seq<char>, c: char, j: int)
    requires
        0 <= j <= s.len(),
        forall|k: int| 0 <= k < j ==> s[k] != c,
        j < s.len() ==> s[j] == c,
    ensures
        find(s, c) == j,
    decreases s.len(),
{
    if s.len() == 0 {
    } else if s[0] == c {
        assert(j == 0);
    } else {
        assert(j >= 1);
        lemma_find_is(s.drop_first(), c, j - 1);
    }
}

/// `s` without its leading whitespace.
pub open spec fn trim_start(s: Seq<char>) -> Seq<char>
    decreases s.len(),
{
    if s.len() > 0 && is_space(s[0]) {
        trim_start(s.drop_first())
    } else {
        s
    }
}

/// `s` without its trailing whitespace.
pub open spec fn trim_end(s: Seq<char>) -> Seq<char>
    decreases s.len(),
{
    if s.len() > 0 && is_space(s.last()) {
        trim_end(s.drop_last())
    } else {
        s
    }
}

/// `s` without leading and trailing whitespace.
pub open spec fn trim(s: Seq<char>) -> Seq<char> {
    trim_end(trim_start(s))
}

/// `trim_start` drops exactly the characters before the first non-space.
pub proof fn lemma_trim_start_is(s: Seq<char>, k: int)
    requires
        0 <= k <= s.len(),
        forall|j: int| 0 <= j < k ==> is_space(s[j]),
        k < s.len() ==> !is_space(s[k]),
    ensures
        trim_start(s) =~= s.subrange(k, s.len() as int),
    decreases s.len(),
{
    if s.len() > 0 && is_space(s[0]) {
        assert(k >= 1);
        lemma_trim_start_is(s.drop_first(), k - 1);
        assert(s.drop_first().subrange(k - 1, s.drop_first().len() as int) =~= s.subrange(
            k,
            s.len() as int,
        ));
    } else {
        assert(k == 0);
    }
}

/// `trim_end` drops exactly the characters after the last non-space.
pub proof fn lemma_trim_end_is(s: Seq<char>, k: int)
    requires
        0 <= k <= s.len(),
        forall|j: int| k <= j < s.len() ==> is_space(s[j]),
        k > 0 ==> !is_space(s[k - 1]),
    ensures
        trim_end(s) =~= s.subrange(0, k),
    decreases s.len(),
{
    if s.len() > 0 && is_space(s.last()) {
        assert(k < s.len());
        lemma_trim_end_is(s.drop_last(), k);
        assert(s.drop_last().subrange(0, k) =~= s.subrange(0, k));
    } else {
        assert(k == s.len());
    }
}

/// First index in `[a, b)` at which `c0` occurs in `s`, or `b` if it does
/// not.
pub fn find_from(s: &str, a: usize, b: usize, c0: char) -> (j: usize)
    requires
        a <= b <= s@.len(),
    ensures
        a <= j <= b,
        forall|k: int| a <= k < j ==> s@[k] != c0,
        j < b ==> s@[j as int] == c0,
{
    let mut j = a;
    while j < b
        invariant
            a <= j <= b <= s@.len(),
            forall|k: int| a <= k < j ==> s@[k] != c0,
        decreases b - j,
    {
        if s.get_char(j) == c0 {
            return j;
        }
        j += 1;
    }
    j
}

/// Tells a space, tab or carriage return apart from anything else.
pub fn is_space_char(c: char) -> (r: bool)
    ensures
        r == is_space(c),
{
    c == ' ' || c == '\t' || c == '\r'
}

/// The bounds of `trim(s[a..b])` within `s`: the range left once leading and
/// trailing whitespace of `s[a..b]` is dropped.
pub fn trim_range(s: &str, a: usize, b: usize) -> (r: (usize, usize))
    requires
        a <= b <= s@.len(),
    ensures
        a <= r.0 <= r.1 <= b,
        trim(s@.subrange(a as int, b as int)) == s@.subrange(r.0 as int, r.1 as int),
{
    let mut x = a;
    while x < b
        invariant
            a <= x <= b <= s@.len(),
            forall|k: int| a <= k < x ==> is_space(s@[k]),
        ensures
            a <= x <= b,
            forall|k: int| a <= k < x ==> is_space(s@[k]),
            x < b ==> !is_space(s@[x as int]),
        decreases b - x,
    {
        if !is_space_char(s.get_char(x)) {
            break;
        }
        x += 1;
    }
    let mut y = b;
    while y > x
        invariant
            a <= x <= y <= b <= s@.len(),
            forall|k: int| y <= k < b ==> is_space(s@[k]),
        ensures
            x <= y <= b,
            forall|k: int| y <= k < b ==> is_space(s@[k]),
            y > x ==> !is_space(s@[y - 1]),
        decreases y,
    {
        if !is_space_char(s.get_char(y - 1)) {
            break;
        }
        y -= 1;
    }
    proof {
        let raw = s@.subrange(a as int, b as int);
        lemma_trim_start_is(raw, x - a);
        assert(raw.subrange(x - a, raw.len() as int) =~= s@.subrange(x as int, b as int));
        lemma_trim_end_is(s@.subrange(x as int, b as int), y - x);
        assert(s@.subrange(x as int, b as int).subrange(0, y - x) =~= s@.subrange(
            x as int,
            y as int,
        ));
    }
    (x, y)
}

/// A decimal digit.
pub open spec fn is_digit(c: char) -> bool {
    48 <= c as int <= 57
}

/// The numeric value of a digit (zero for anything else, so that decimal
/// values are monotone in the number of characters consumed).
pub open spec fn digit_val(c: char) -> nat {
    if is_digit(c) {
        (c as int - 48) as nat
    } else {
        0nat
    }
}

/// A non-empty sequence of decimal digits: the only texts the library
/// accepts as unsigned numbers.
pub open spec fn is_dec(s: Seq<char>) -> bool {
    s.len() > 0 && forall|i: int| 0 <= i < s.len() ==> is_digit(s[i])
}

/// The number that a sequence of decimal digits denotes, most significant
/// digit first.
pub open spec fn dec_val(s: Seq<char>) -> nat
    decreases s.len(),
{
    if s.len() == 0 {
        0
    } else {
        dec_val(s.drop_last()) * 10 + digit_val(s.last())
    }
}

/// A prefix of a digit sequence never denotes more than the whole.
pub proof fn lemma_dec_val_prefix(s: Seq<char>, i: int)
    requires
        0 <= i <= s.len(),
    ensures
        dec_val(s.subrange(0, i)) <= dec_val(s),
    decreases s.len() - i,
{
    if i == s.len() {
        assert(s.subrange(0, i) =~= s);
    } else {
        assert(s.subrange(0, i + 1).drop_last() =~= s.subrange(0, i));
        assert(dec_val(s.subrange(0, i)) <= dec_val(s.subrange(0, i + 1)));
        lemma_dec_val_prefix(s, i + 1);
    }
}

/// Parses `s` as an unsigned 128-bit decimal: `Some` exactly when `s` is one
/// or more decimal digits denoting a value that fits.
pub fn parse_u128(s: &str) -> (r: Option<u128>)
    ensures
        match r {
            Some(v) => is_dec(s@) && v == dec_val(s@),
            None => !is_dec(s@) || dec_val(s@) > u128::MAX,
        },
{
    let n = s.unicode_len();
    if n == 0 {
        return None;
    }
    let mut i: usize = 0;
    let mut acc: u128 = 0;
    while i < n
        invariant
            0 <= i <= n,
            n == s@.len(),
            forall|k: int| 0 <= k < i ==> is_digit(s@[k]),
            acc == dec_val(s@.subrange(0, i as int)),
        decreases n - i,
    {
        let c = s.get_char(i);
        let u = c as u32;
        if u < 48 || u > 57 {
            assert(!is_digit(s@[i as int]));
            return None;
        }
        let d = (u - 48) as u128;
        proof {
            assert(s@.subrange(0, i + 1).drop_last() =~= s@.subrange(0, i as int));
        }
        acc = match acc.checked_mul(10) {
            Some(m) => match m.checked_add(d) {
                Some(v) => v,
                None => {
                    proof {
                        lemma_dec_val_prefix(s@, i + 1);
                    }
                    return None;
                },
            },
            None => {
                proof {
                    lemma_dec_val_prefix(s@, i + 1);
                }
                return None;
            },
        };
        i += 1;
    }
    proof {
        assert(s@.subrange(0, n as int) =~= s@);
    }
    Some(acc)
}

/// Parses `s` as an unsigned 64-bit decimal, through `parse_u128`.
pub fn parse_u64(s: &str) -> (r: Option<u64>)
    ensures
        match r {
            Some(v) => is_dec(s@) && v == dec_val(s@),
            None => !is_dec(s@) || dec_val(s@) > u64::MAX,
        },
{
    match parse_u128(s) {
        Some(v) => if v <= u64::MAX as u128 {
            Some(v as u64)
        } else {
            None
        },
        None => None,
    }
}

/// Parses `s` as an unsigned 16-bit decimal, through `parse_u128`.
pub fn parse_u16(s: &str) -> (r: Option<u16>)
    ensures
        match r {
            Some(v) => is_dec(s@) && v == dec_val(s@),
            None => !is_dec(s@) || dec_val(s@) > u16::MAX,
        },
{
    match parse_u128(s) {
        Some(v) => if v <= u16::MAX as u128 {
            Some(v as u16)
        } else {
            None
        },
        None => None,
    }
}

/// Character-for-character string equality, decided executably.
pub fn str_eq(a: &str, b: &str) -> (r: bool)
    ensures
        r == (a@ == b@),
{
    let na = a.unicode_len();
    let nb = b.unicode_len();
    if na != nb {
        return false;
    }
    let mut i: usize = 0;
    while i < na
        invariant
            0 <= i <= na,
            na == a@.len(),
            na == b@.len(),
            forall|k: int| 0 <= k < i ==> a@[k] == b@[k],
        decreases na - i,
    {
        if a.get_char(i) != b.get_char(i) {
            return false;
        }
        i += 1;
    }
    proof {
        assert(a@ =~= b@);
    }
    true
}

} // verus!
