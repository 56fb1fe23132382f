//! Title resolution for a post: an explicit non-empty metadata title wins,
//! else the first level-1 heading line of the body, else the filename
//! without its extension, else a fixed fallback.

use vstd::prelude::*;
use vstd::string::*;
use crate::frontmatter::spec_trim;
use crate::text::{first_non_ws, last_non_ws, matches_at};

verus! {

/// Length of the prefix of `s` before the first occurrence of `c`
/// (`s.len()` when `c` does not occur).
pub open spec fn upto_char(s: Seq<char>, c: char) -> int
    decreases s.len(),
{
    if s.len() == 0 || s[0] == c {
        0
    } else {
        1 + upto_char(s.drop_first(), c)
    }
}

proof fn lemma_upto_char_is(s: Seq<char>, c: char, k: int)
    requires
        0 <= k <= s.len(),
        forall|i: int| 0 <= i < k ==> s[i] != c,
        k < s.len() ==> s[k] == c,
    ensures
        k == upto_char(s, c),
    decreases s.len(),
{
    if k == 0 {
    } else {
        lemma_upto_char_is(s.drop_first(), c, k - 1)
    }
}

/// Index of the last occurrence of `c` in `s`, or `-1`.
pub open spec fn last_pos(s: Seq<char>, c: char) -> int
    decreases s.len(),
{
    if s.len() == 0 {
        -1
    } else if s.last() == c {
        s.len() - 1
    } else {
        last_pos(s.drop_last(), c)
    }
}

proof fn lemma_last_pos_is(s: Seq<char>, c: char, p: int)
    requires
        -1 <= p < s.len(),
        p >= 0 ==> s[p] == c,
        forall|i: int| p < i < s.len() ==> s[i] != c,
    ensures
        p == last_pos(s, c),
    decreases s.len(),
{
    if s.len() == 0 {
    } else if s.last() == c {
        assert(p == s.len() - 1);
    } else {
        assert(p < s.len() - 1);
        lemma_last_pos_is(s.drop_last(), c, p);
    }
}

/// One line as `str::lines` yields it: a trailing carriage return is
/// dropped.
pub open spec fn strip_cr(line: Seq<char>) -> Seq<char> {
    if line.len() > 0 && line.last() == '\r' {
        line.drop_last()
    } else {
        line
    }
}

proof fn lemma_upto_char_bounds(s: Seq<char>, c: char)
    ensures
        0 <= upto_char(s, c) <= s.len(),
    decreases s.len(),
{
    if s.len() == 0 || s[0] == c {
    } else {
        lemma_upto_char_bounds(s.drop_first(), c);
    }
}

#[via_fn]
proof fn spec_heading_title_dec(s: Seq<char>) {
    lemma_upto_char_bounds(s, '\n');
}

/// The title taken from the first line of `s` whose trimmed text starts
/// with a level-1 heading marker and a space: its remainder, trimmed.
pub open spec fn spec_heading_title(s: Seq<char>) -> Option<Seq<char>>
    decreases s.len()
        via spec_heading_title_dec
{
    let e = upto_char(s, '\n');
    let t = spec_trim(strip_cr(s.subrange(0, e)));
    if matches_at(t, "# "@, 0) {
        Some(spec_trim(t.skip(2)))
    } else if e >= s.len() {
        None
    } else {
        spec_heading_title(s.skip(e + 1))
    }
}

/// Index where the trailing `'/'` run of `f` starts (`f.len()` if none).
pub open spec fn slash_suffix_start(f: Seq<char>) -> int
    decreases f.len(),
{
    if f.len() == 0 || f.last() != '/' {
        f.len() as int
    } else {
        slash_suffix_start(f.drop_last())
    }
}

proof fn lemma_slash_suffix_start_is(f: Seq<char>, h: int)
    requires
        0 <= h <= f.len(),
        forall|i: int| h <= i < f.len() ==> f[i] == '/',
        h > 0 ==> f[h - 1] != '/',
    ensures
        h == slash_suffix_start(f),
    decreases f.len(),
{
    if h == f.len() {
        if f.len() > 0 {
            assert(f.last() != '/');
        }
    } else {
        assert(f.last() == '/');
        lemma_slash_suffix_start_is(f.drop_last(), h);
    }
}

/// The final path component of `f`: trailing separators are dropped first,
/// as `Path` drops them.
pub open spec fn last_component(f: Seq<char>) -> Seq<char> {
    let g = f.take(slash_suffix_start(f));
    g.skip(last_pos(g, '/') + 1)
}

/// The filename stem: the final path component without its extension, or
/// nothing when that component is empty or only dots.  A final `.` or `..`
/// component is taken literally, not resolved against the path before it.
pub open spec fn spec_stem(f: Seq<char>) -> Option<Seq<char>> {
    let c = last_component(f);
    if c.len() == 0 || c == "."@ || c == ".."@ {
        None
    } else if last_pos(c, '.') > 0 {
        Some(c.subrange(0, last_pos(c, '.')))
    } else {
        Some(c)
    }
}

/// The derived title: first heading of the body, else filename stem, else
/// the fixed fallback.
pub open spec fn spec_extract_title(body: Seq<char>, filename: Seq<char>) -> Seq<char> {
    match spec_heading_title(body) {
        Some(t) => t,
        None => match spec_stem(filename) {
            Some(st) => st,
            None => "Untitled"@,
        },
    }
}

/// Trims `s` on both ends, as `spec_trim` describes.
pub fn trim_str(s: &str) -> (r: &str)
    ensures
        r@ == spec_trim(s@),
{
    let lo = first_non_ws(s);
    let hi = last_non_ws(s);
    proof {
        crate::frontmatter::lemma_ws_prefix_len_is(s@, lo as int);
        crate::frontmatter::lemma_ws_suffix_start_is(s@, hi as int);
    }
    if lo >= s.unicode_len() {
        proof {
            reveal_strlit("");
            assert(""@ =~= spec_trim(s@));
        }
        ""
    } else {
        s.substring_char(lo, hi)
    }
}

/// Index of the first `'\n'` at or after `from` (`s@.len()` if none).
fn find_nl(s: &str, from: usize) -> (e: usize)
    requires
        from <= s@.len(),
    ensures
        from <= e <= s@.len(),
        forall|i: int| from <= i < e ==> s@[i] != '\n',
        e < s@.len() ==> s@[e as int] == '\n',
{
    let n = s.unicode_len();
    let mut e: usize = from;
    while e < n
        invariant
            n == s@.len(),
            from <= e <= n,
            forall|i: int| from <= i < e ==> s@[i] != '\n',
        decreases n - e,
    {
        if s.get_char(e) == '\n' {
            return e;
        }
        e += 1;
    }
    e
}

/// The heading-derived title of `content`, if any line yields one.
fn heading_title(content: &str) -> (r: Option<String>)
    ensures
        (match r {
            Some(t) => Some(t@),
            None => None,
        }) == spec_heading_title(content@),
{
    let n = content.unicode_len();
    let mut pos: usize = 0;
    proof {
        assert(content@.skip(0) =~= content@);
    }
    loop
        invariant
            n == content@.len(),
            pos <= n,
            spec_heading_title(content@) == spec_heading_title(content@.skip(pos as int)),
        decreases n - pos,
    {
        let e = find_nl(content, pos);
        proof {
            assert(content@.skip(pos as int).subrange(0, e - pos) =~= content@.subrange(
                pos as int,
                e as int,
            ));
            lemma_upto_char_is(content@.skip(pos as int), '\n', e - pos);
        }
        let raw_line = content.substring_char(pos, e);
        let line = if raw_line.unicode_len() > 0 && raw_line.get_char(
            raw_line.unicode_len() - 1,
        ) == '\r' {
            let m = raw_line.unicode_len();
            let l = raw_line.substring_char(0, m - 1);
            proof {
                assert(l@ =~= strip_cr(raw_line@));
            }
            l
        } else {
            raw_line
        };
        let t = trim_str(line);
        if crate::text::has_at(t, "# ", 0) {
            proof {
                reveal_strlit("# ");
            }
            let tn = t.unicode_len();
            let rest = t.substring_char(2, tn);
            let out = trim_str(rest);
            return Some(out.to_owned());
        }
        if e >= n {
            return None;
        }
        proof {
            assert(content@.skip(pos as int).skip(e - pos + 1) =~= content@.skip(e + 1));
        }
        pos = e + 1;
    }
}

/// The last `'/'` of `s`, if any.
fn rfind_char(s: &str, c: char) -> (r: Option<usize>)
    ensures
        (match r {
            Some(p) => p as int,
            None => -1,
        }) == last_pos(s@, c),
        r matches Some(p) ==> p < s@.len() && s@[p as int] == c,
{
    let n = s.unicode_len();
    let mut h: usize = n;
    while h > 0
        invariant
            n == s@.len(),
            h <= n,
            forall|i: int| h <= i < s@.len() ==> s@[i] != c,
        decreases h,
    {
        if s.get_char(h - 1) == c {
            proof {
                lemma_last_pos_is(s@, c, h - 1);
            }
            return Some(h - 1);
        }
        h -= 1;
    }
    proof {
        lemma_last_pos_is(s@, c, -1);
    }
    None
}

/// Index where the trailing `'/'` run of `s` starts.
fn trailing_sep_start(s: &str) -> (h: usize)
    ensures
        h <= s@.len(),
        forall|i: int| h <= i < s@.len() ==> s@[i] == '/',
        h > 0 ==> s@[h - 1] != '/',
{
    let n = s.unicode_len();
    let mut h: usize = n;
    while h > 0
        invariant
            n == s@.len(),
            h <= n,
            forall|i: int| h <= i < s@.len() ==> s@[i] == '/',
        decreases h,
    {
        if s.get_char(h - 1) != '/' {
            return h;
        }
        h -= 1;
    }
    h
}

/// The filename stem, mirroring `spec_stem`.
fn stem_of(filename: &str) -> (r: Option<String>)
    ensures
        (match r {
            Some(t) => Some(t@),
            None => None,
        }) == spec_stem(filename@),
{
    let end = trailing_sep_start(filename);
    proof {
        lemma_slash_suffix_start_is(filename@, end as int);
    }
    let head = filename.substring_char(0, end);
    proof {
        assert(head@ =~= filename@.take(slash_suffix_start(filename@)));
    }
    let start = match rfind_char(head, '/') {
        Some(p) => p + 1,
        None => 0,
    };
    let comp = head.substring_char(start, end);
    proof {
        assert(comp@ =~= last_component(filename@));
    }
    let m = comp.unicode_len();
    if m == 0 {
        return None;
    }
    if m == 1 && comp.get_char(0) == '.' {
        proof {
            reveal_strlit(".");
            assert(comp@ =~= "."@);
        }
        return None;
    }
    if m == 2 && comp.get_char(0) == '.' && comp.get_char(1) == '.' {
        proof {
            reveal_strlit("..");
            assert(comp@ =~= ".."@);
        }
        return None;
    }
    proof {
        reveal_strlit(".");
        reveal_strlit("..");
    }
    match rfind_char(comp, '.') {
        Some(p) => {
            if p > 0 {
                Some(comp.substring_char(0, p).to_owned())
            } else {
                Some(comp.to_owned())
            }
        },
        None => Some(comp.to_owned()),
    }
}

/// Derives a title from the body's first heading line, else from the
/// filename stem, else the fixed fallback.
pub fn extract_title(content: &str, filename: &str) -> (r: String)
    ensures
        r@ == spec_extract_title(content@, filename@),
{
    match heading_title(content) {
        Some(t) => t,
        None => match stem_of(filename) {
            Some(st) => st,
            None => {
                let u = "Untitled";
                u.to_owned()
            },
        },
    }
}

/// What the published post's title is: the explicit metadata title when
/// present and non-empty, else the derived title.
pub open spec fn spec_resolve_title(
    title_field: Option<Seq<char>>,
    body: Seq<char>,
    filename: Seq<char>,
) -> Seq<char> {
    match title_field {
        Some(t) => if t.len() > 0 {
            t
        } else {
            spec_extract_title(body, filename)
        },
        None => spec_extract_title(body, filename),
    }
}

/// Resolves the display title of a post.
pub fn resolve_title(title_field: &Option<String>, body: &str, filename: &str) -> (r: String)
    ensures
        r@ == spec_resolve_title(title_field.deep_view(), body@, filename@),
{
    match title_field {
        Some(t) => {
            if t.as_str().unicode_len() > 0 {
                t.clone()
            } else {
                extract_title(body, filename)
            }
        },
        None => extract_title(body, filename),
    }
}

} // verus!
