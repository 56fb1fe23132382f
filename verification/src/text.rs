//! Character-level text utilities: whitespace trimming, substring search,
//! decimal rendering of integers, and display truncation.

use vstd::prelude::*;
use vstd::string::*;

verus! {

/// The characters the library trims as whitespace: the Unicode
/// `White_Space` set, as `char::is_whitespace` recognises it.
pub open spec fn is_ws(c: char) -> bool {
    ('\u{9}' <= c && c <= '\u{d}') || c == ' ' || c == '\u{85}' || c == '\u{a0}' || c
        == '\u{1680}' || ('\u{2000}' <= c && c <= '\u{200a}') || c == '\u{2028}' || c
        == '\u{2029}' || c == '\u{202f}' || c == '\u{205f}' || c == '\u{3000}'
}

/// `pat` occurs in `s` starting at position `i`.
pub open spec fn matches_at(s: Seq<char>, pat: Seq<char>, i: int) -> bool {
    0 <= i && i + pat.len() <= s.len() && s.subrange(i, i + pat.len() as int) == pat
}

/// Relies on `char::from_u32`: `Some` exactly on a Unicode scalar value
/// (below the surrogate range, or above it up to the last code point), and
/// then the character with that value.
#[verifier::external_body]
pub fn char_from_u32(v: u32) -> (r: Option<char>)
    ensures
        r is Some <==> (v < 0xd800 || (0xe000 <= v && v <= 0x10ffff)),
        r matches Some(c) ==> c as u32 == v,
{
    char::from_u32(v)
}

/// Relies on `String::push`: appends one character at the end.
#[verifier::external_body]
pub fn push_char(s: &mut String, c: char)
    ensures
        final(s)@ == old(s)@.push(c),
{
    s.push(c);
}

fn is_ws_char(c: char) -> (r: bool)
    ensures
        r == is_ws(c),
{
    ('\u{9}' <= c && c <= '\u{d}') || c == ' ' || c == '\u{85}' || c == '\u{a0}' || c
        == '\u{1680}' || ('\u{2000}' <= c && c <= '\u{200a}') || c == '\u{2028}' || c
        == '\u{2029}' || c == '\u{202f}' || c == '\u{205f}' || c == '\u{3000}'
}

/// Index of the first character of `s` that is not whitespace
/// (`s@.len()` when every character is).
pub fn first_non_ws(s: &str) -> (k: usize)
    ensures
        k <= s@.len(),
        forall|i: int| 0 <= i < k ==> is_ws(s@[i]),
        k < s@.len() ==> !is_ws(s@[k as int]),
{
    let n = s.unicode_len();
    let mut k: usize = 0;
    while k < n
        invariant
            n == s@.len(),
            k <= n,
            forall|i: int| 0 <= i < k ==> is_ws(s@[i]),
        decreases n - k,
    {
        if !is_ws_char(s.get_char(k)) {
            return k;
        }
        k += 1;
    }
    k
}

/// One past the index of the last character of `s` that is not whitespace
/// (`0` when every character is).
pub fn last_non_ws(s: &str) -> (h: usize)
    ensures
        h <= s@.len(),
        forall|i: int| h <= i < s@.len() ==> is_ws(s@[i]),
        h > 0 ==> !is_ws(s@[h - 1]),
{
    let n = s.unicode_len();
    let mut h: usize = n;
    while h > 0
        invariant
            n == s@.len(),
            h <= n,
            forall|i: int| h <= i < s@.len() ==> is_ws(s@[i]),
        decreases h,
    {
        if !is_ws_char(s.get_char(h - 1)) {
            return h;
        }
        h -= 1;
    }
    h
}

/// Whether `pat` occurs in `s` at position `i`.
pub fn has_at(s: &str, pat: &str, i: usize) -> (r: bool)
    requires
        i <= s@.len(),
    ensures
        r == matches_at(s@, pat@, i as int),
{
    let n = s.unicode_len();
    let m = pat.unicode_len();
    if m > n - i {
        return false;
    }
    let mut j: usize = 0;
    while j < m
        invariant
            n == s@.len(),
            m == pat@.len(),
            i + m <= n,
            j <= m,
            forall|t: int| 0 <= t < j ==> s@[i + t] == pat@[t],
        decreases m - j,
    {
        if s.get_char(i + j) != pat.get_char(j) {
            proof {
                assert(s@.subrange(i as int, i + m as int)[j as int] == s@[i + j]);
            }
            return false;
        }
        j += 1;
    }
    proof {
        assert(s@.subrange(i as int, i + m as int) =~= pat@);
    }
    true
}

/// The first position at or after `from` where `pat` occurs in `s`, if any.
pub fn find_from(s: &str, pat: &str, from: usize) -> (r: Option<usize>)
    requires
        from <= s@.len(),
    ensures
        match r {
            Some(j) => matches_at(s@, pat@, j as int) && from <= j && forall|i: int|
                from <= i < j ==> !matches_at(s@, pat@, i),
            None => forall|i: int| from <= i ==> !matches_at(s@, pat@, i),
        },
{
    let n = s.unicode_len();
    let mut j: usize = from;
    while j < n
        invariant
            n == s@.len(),
            from <= j <= n,
            forall|i: int| from <= i < j ==> !matches_at(s@, pat@, i),
        decreases n - j,
    {
        if has_at(s, pat, j) {
            return Some(j);
        }
        j += 1;
    }
    if has_at(s, pat, n) {
        return Some(n);
    }
    proof {
        assert(forall|i: int| i > s@.len() ==> !matches_at(s@, pat@, i));
    }
    None
}

/// Whether two strings hold the same characters.
pub fn str_eq(a: &str, b: &str) -> (r: bool)
    ensures
        r == (a@ == b@),
{
    let m = a.unicode_len();
    let n = b.unicode_len();
    if m != n {
        return false;
    }
    let r = has_at(a, b, 0);
    proof {
        if r {
            assert(a@.subrange(0, n as int) =~= a@);
        } else {
            if a@ == b@ {
                assert(a@.subrange(0, n as int) =~= b@);
            }
        }
    }
    r
}

/// The decimal digit character for `d`.
pub open spec fn dec_digit(d: int) -> char {
    if d == 0 {
        '0'
    } else if d == 1 {
        '1'
    } else if d == 2 {
        '2'
    } else if d == 3 {
        '3'
    } else if d == 4 {
        '4'
    } else if d == 5 {
        '5'
    } else if d == 6 {
        '6'
    } else if d == 7 {
        '7'
    } else if d == 8 {
        '8'
    } else {
        '9'
    }
}

/// The usual decimal rendering of `n`, without leading zeros.
pub open spec fn spec_dec(n: nat) -> Seq<char>
    decreases n,
{
    if n < 10 {
        seq![dec_digit(n as int)]
    } else {
        spec_dec(n / 10).push(dec_digit((n % 10) as int))
    }
}

fn dec_digit_char(d: u64) -> (c: char)
    requires
        d < 10,
    ensures
        c == dec_digit(d as int),
{
    if d == 0 {
        '0'
    } else if d == 1 {
        '1'
    } else if d == 2 {
        '2'
    } else if d == 3 {
        '3'
    } else if d == 4 {
        '4'
    } else if d == 5 {
        '5'
    } else if d == 6 {
        '6'
    } else if d == 7 {
        '7'
    } else if d == 8 {
        '8'
    } else {
        '9'
    }
}

/// Appends the decimal rendering of `v` to `s`.
pub fn push_dec(s: &mut String, v: u64)
    ensures
        final(s)@ == old(s)@ + spec_dec(v as nat),
    decreases v,
{
    if v >= 10 {
        push_dec(s, v / 10);
    }
    push_char(s, dec_digit_char(v % 10));
}

/// The decimal rendering of `v` as a fresh string.
pub fn u64_to_string(v: u64) -> (r: String)
    ensures
        r@ == spec_dec(v as nat),
{
    let mut s = String::new();
    push_dec(&mut s, v);
    proof {
        assert(s@ =~= spec_dec(v as nat));
    }
    s
}

/// What truncating `s` to at most `max` characters yields: `s` itself when it
/// fits, else its first `max - 3` characters followed by an ellipsis.
pub open spec fn spec_truncate(s: Seq<char>, max: int) -> Seq<char> {
    if s.len() <= max {
        s
    } else {
        s.subrange(0, max - 3) + seq!['.', '.', '.']
    }
}

/// Truncates `s` for display in a fixed-width column of `max` characters.
pub fn truncate(s: &str, max: usize) -> (r: String)
    requires
        s@.len() > max ==> max >= 3,
    ensures
        r@ == spec_truncate(s@, max as int),
        r@.len() <= vstd::math::max(s@.len() as int, max as int),
{
    let n = s.unicode_len();
    if n <= max {
        s.to_owned()
    } else {
        let head = s.substring_char(0, max - 3);
        let mut r = head.to_owned();
        push_char(&mut r, '.');
        push_char(&mut r, '.');
        push_char(&mut r, '.');
        proof {
            assert(r@ =~= spec_truncate(s@, max as int));
        }
        r
    }
}

} // verus!
