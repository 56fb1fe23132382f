//! Metadata-block extraction: splits an optional leading `---`-delimited
//! YAML block off a markdown file and decodes it into a typed set of
//! optional fields.  An absent, unterminated or undecodable block is
//! silently discarded: the whole file is then the body, a deliberate
//! leniency of the tool this library serves.

use vstd::prelude::*;
use vstd::string::*;
use crate::text::{
    first_non_ws, find_from, has_at, is_ws, last_non_ws, matches_at,
};
use crate::yaml::{
    parse_yaml, yaml_as_bool, yaml_as_sequence, yaml_as_str, yaml_doc, yaml_get, yaml_is_mapping,
    yaml_is_null, yaml_model, Yaml,
};

verus! {

/// The optional fields of a metadata block.
pub struct Frontmatter {
    pub title: Option<String>,
    pub published: Option<bool>,
    pub tags: Option<Vec<String>>,
    pub slug: Option<String>,
    pub space: Option<String>,
}

/// Mathematical image of a `Frontmatter`.
pub struct FrontmatterView {
    pub title: Option<Seq<char>>,
    pub published: Option<bool>,
    pub tags: Option<Seq<Seq<char>>>,
    pub slug: Option<Seq<char>>,
    pub space: Option<Seq<char>>,
}

impl View for Frontmatter {
    type V = FrontmatterView;

    open spec fn view(&self) -> FrontmatterView {
        FrontmatterView {
            title: self.title.deep_view(),
            published: self.published,
            tags: self.tags.deep_view(),
            slug: self.slug.deep_view(),
            space: self.space.deep_view(),
        }
    }
}

/// All fields absent.
pub open spec fn default_frontmatter_view() -> FrontmatterView {
    FrontmatterView { title: None, published: None, tags: None, slug: None, space: None }
}

/// A `Frontmatter` with every field absent.
pub fn default_frontmatter() -> (r: Frontmatter)
    ensures
        r@ == default_frontmatter_view(),
{
    Frontmatter { title: None, published: None, tags: None, slug: None, space: None }
}

/// Number of leading whitespace characters of `s`.
pub open spec fn ws_prefix_len(s: Seq<char>) -> int
    decreases s.len(),
{
    if s.len() == 0 || !is_ws(s[0]) {
        0
    } else {
        1 + ws_prefix_len(s.drop_first())
    }
}

/// Index where the trailing whitespace of `s` starts (`s.len()` if none).
pub open spec fn ws_suffix_start(s: Seq<char>) -> int
    decreases s.len(),
{
    if s.len() == 0 || !is_ws(s.last()) {
        s.len() as int
    } else {
        ws_suffix_start(s.drop_last())
    }
}

/// `s` with leading and trailing whitespace removed.
pub open spec fn spec_trim(s: Seq<char>) -> Seq<char> {
    if ws_prefix_len(s) == s.len() {
        Seq::empty()
    } else {
        s.subrange(ws_prefix_len(s), ws_suffix_start(s))
    }
}

/// The position of the first occurrence of `pat` in `s` at or after `from`.
pub open spec fn first_occ(s: Seq<char>, pat: Seq<char>, from: int) -> Option<int>
    decreases s.len() + 1 - from,
{
    if from < 0 || from + pat.len() > s.len() {
        None
    } else if matches_at(s, pat, from) {
        Some(from)
    } else {
        first_occ(s, pat, from + 1)
    }
}

pub proof fn lemma_ws_prefix_len_is(s: Seq<char>, k: int)
    requires
        0 <= k <= s.len(),
        forall|i: int| 0 <= i < k ==> is_ws(s[i]),
        k < s.len() ==> !is_ws(s[k]),
    ensures
        k == ws_prefix_len(s),
    decreases s.len(),
{
    if k == 0 {
    } else {
        assert(is_ws(s[0]));
        lemma_ws_prefix_len_is(s.drop_first(), k - 1);
    }
}

pub proof fn lemma_ws_suffix_start_is(s: Seq<char>, h: int)
    requires
        0 <= h <= s.len(),
        forall|i: int| h <= i < s.len() ==> is_ws(s[i]),
        h > 0 ==> !is_ws(s[h - 1]),
    ensures
        h == ws_suffix_start(s),
    decreases s.len(),
{
    if h == s.len() {
        if s.len() > 0 {
            assert(!is_ws(s.last()));
        }
    } else {
        assert(is_ws(s.last()));
        lemma_ws_suffix_start_is(s.drop_last(), h);
    }
}

/// A string field of the block: absent or null means no value, a string is
/// the value, and anything else makes the whole block undecodable.
pub open spec fn field_str(m: Map<Seq<char>, Yaml>, key: Seq<char>) -> Option<
    Option<Seq<char>>,
> {
    if !m.contains_key(key) {
        Some(None)
    } else {
        match m[key] {
            Yaml::Null => Some(None),
            Yaml::Str(s) => Some(Some(s)),
            _ => None,
        }
    }
}

/// A boolean field of the block, read as `field_str` is.
pub open spec fn field_bool(m: Map<Seq<char>, Yaml>, key: Seq<char>) -> Option<Option<bool>> {
    if !m.contains_key(key) {
        Some(None)
    } else {
        match m[key] {
            Yaml::Null => Some(None),
            Yaml::Bool(b) => Some(Some(b)),
            _ => None,
        }
    }
}

/// The elements of a sequence node, provided every one is a string.
pub open spec fn str_list(l: Seq<Yaml>) -> Option<Seq<Seq<char>>>
    decreases l.len(),
{
    if l.len() == 0 {
        Some(Seq::empty())
    } else {
        match l[0] {
            Yaml::Str(s) => match str_list(l.drop_first()) {
                Some(r) => Some(seq![s] + r),
                None => None,
            },
            _ => None,
        }
    }
}

/// A list-of-strings field of the block.
pub open spec fn field_tags(m: Map<Seq<char>, Yaml>, key: Seq<char>) -> Option<
    Option<Seq<Seq<char>>>,
> {
    if !m.contains_key(key) {
        Some(None)
    } else {
        match m[key] {
            Yaml::Null => Some(None),
            Yaml::List(l) => match str_list(l) {
                Some(t) => Some(Some(t)),
                None => None,
            },
            _ => None,
        }
    }
}

/// Decoding a parsed YAML document into the metadata fields.  An empty
/// document yields all-default fields; a mapping yields its fields when
/// each has the expected type; anything else is undecodable.  One known
/// leniency: a mapping whose extra keys are not strings, or whose field
/// values sit under a tag, decodes here, where a strict field-by-field
/// deserializer would reject the block into the fallback.
pub open spec fn fm_of_yaml(y: Yaml) -> Option<FrontmatterView> {
    match y {
        Yaml::Null => Some(default_frontmatter_view()),
        Yaml::Mapping(m) => {
            if field_str(m, "title"@) is Some && field_bool(m, "published"@) is Some
                && field_tags(m, "tags"@) is Some && field_str(m, "slug"@) is Some && field_str(
                m,
                "space"@,
            ) is Some {
                Some(
                    FrontmatterView {
                        title: field_str(m, "title"@)->Some_0,
                        published: field_bool(m, "published"@)->Some_0,
                        tags: field_tags(m, "tags"@)->Some_0,
                        slug: field_str(m, "slug"@)->Some_0,
                        space: field_str(m, "space"@)->Some_0,
                    },
                )
            } else {
                None
            }
        },
        _ => None,
    }
}

proof fn lemma_str_list_snoc(l: Seq<Yaml>, x: Yaml)
    ensures
        str_list(l.push(x)) == (match (str_list(l), x) {
            (Some(r), Yaml::Str(s)) => Some(r.push(s)),
            _ => None::<Seq<Seq<char>>>,
        }),
    decreases l.len(),
{
    let lp = l.push(x);
    if l.len() == 0 {
        assert(lp.len() == 1);
        assert(lp[0] == x);
        assert(lp.drop_first() =~= Seq::<Yaml>::empty());
        if x is Str {
            assert(str_list(lp.drop_first()) == Some(Seq::<Seq<char>>::empty()));
            assert(seq![x->Str_0] + Seq::<Seq<char>>::empty() =~= Seq::<
                Seq<char>,
            >::empty().push(x->Str_0));
        }
    } else {
        assert(lp[0] == l[0]);
        assert(lp.drop_first() =~= l.drop_first().push(x));
        lemma_str_list_snoc(l.drop_first(), x);
        match (str_list(l), x) {
            (Some(r), Yaml::Str(s)) => {
                let r0 = str_list(l.drop_first())->Some_0;
                assert(r == seq![l[0]->Str_0] + r0);
                assert(str_list(lp) == Some(seq![l[0]->Str_0] + r0.push(s)));
                assert(seq![l[0]->Str_0] + r0.push(s) =~= (seq![l[0]->Str_0] + r0).push(s));
            },
            _ => {},
        }
    }
}

/// Reads one string field out of a mapping value.
fn read_str_field(v: &serde_yaml::Value, key: &str) -> (r: Option<Option<String>>)
    requires
        yaml_model(*v) is Mapping,
    ensures
        (match r {
            Some(f) => Some(f.deep_view()),
            None => None,
        }) == field_str(yaml_model(*v)->Mapping_0, key@),
{
    match yaml_get(v, key) {
        None => Some(None),
        Some(u) => {
            if yaml_is_null(u) {
                Some(None)
            } else {
                match yaml_as_str(u) {
                    Some(s) => Some(Some(s.to_owned())),
                    None => None,
                }
            }
        },
    }
}

/// Reads one boolean field out of a mapping value.
fn read_bool_field(v: &serde_yaml::Value, key: &str) -> (r: Option<Option<bool>>)
    requires
        yaml_model(*v) is Mapping,
    ensures
        r == field_bool(yaml_model(*v)->Mapping_0, key@),
{
    match yaml_get(v, key) {
        None => Some(None),
        Some(u) => {
            if yaml_is_null(u) {
                Some(None)
            } else {
                match yaml_as_bool(u) {
                    Some(b) => Some(Some(b)),
                    None => None,
                }
            }
        },
    }
}

/// Reads the list-of-strings field out of a mapping value.
fn read_tags_field(v: &serde_yaml::Value, key: &str) -> (r: Option<Option<Vec<String>>>)
    requires
        yaml_model(*v) is Mapping,
    ensures
        (match r {
            Some(f) => Some(f.deep_view()),
            None => None,
        }) == field_tags(yaml_model(*v)->Mapping_0, key@),
{
    match yaml_get(v, key) {
        None => Some(None),
        Some(u) => {
            if yaml_is_null(u) {
                return Some(None);
            }
            match yaml_as_sequence(u) {
                None => None,
                Some(xs) => {
                    let ghost l = yaml_model(*u)->List_0;
                    let mut out: Vec<String> = Vec::new();
                    let mut i: usize = 0;
                    while i < xs.len()
                        invariant
                            yaml_model(*v) is Mapping,
                            yaml_model(*v)->Mapping_0.contains_key(key@),
                            yaml_model(*v)->Mapping_0[key@] == yaml_model(*u),
                            yaml_model(*u) is List,
                            l == yaml_model(*u)->List_0,
                            xs@.len() == l.len(),
                            forall|t: int|
                                0 <= t < l.len() ==> #[trigger] yaml_model(xs@[t]) == l[t],
                            i <= xs@.len(),
                            str_list(l.subrange(0, i as int)) == Some(out.deep_view()),
                        decreases xs@.len() - i,
                    {
                        proof {
                            assert(l.subrange(0, i + 1) =~= l.subrange(0, i as int).push(l[i as int]));
                            lemma_str_list_snoc(l.subrange(0, i as int), l[i as int]);
                        }
                        match yaml_as_str(&xs[i]) {
                            Some(s) => {
                                out.push(s.to_owned());
                                proof {
                                    assert(out.deep_view() =~= str_list(
                                        l.subrange(0, i as int),
                                    )->Some_0.push(s@));
                                }
                            },
                            None => {
                                proof {
                                    lemma_str_list_prefix_none(l, i + 1);
                                }
                                return None;
                            },
                        }
                        i += 1;
                    }
                    proof {
                        assert(l.subrange(0, l.len() as int) =~= l);
                    }
                    Some(Some(out))
                },
            }
        },
    }
}

proof fn lemma_str_list_prefix_none(l: Seq<Yaml>, k: int)
    requires
        0 <= k <= l.len(),
        str_list(l.subrange(0, k)) is None,
    ensures
        str_list(l) is None,
    decreases l.len() - k,
{
    if k == l.len() {
        assert(l.subrange(0, k) =~= l);
    } else {
        assert(l.subrange(0, k + 1) =~= l.subrange(0, k).push(l[k]));
        lemma_str_list_snoc(l.subrange(0, k), l[k]);
        lemma_str_list_prefix_none(l, k + 1);
    }
}

/// Decodes a parsed YAML document into the metadata fields, mirroring
/// `fm_of_yaml`.
pub fn frontmatter_of_value(v: &serde_yaml::Value) -> (r: Option<Frontmatter>)
    ensures
        (match r {
            Some(f) => Some(f@),
            None => None,
        }) == fm_of_yaml(yaml_model(*v)),
{
    if yaml_is_null(v) {
        return Some(default_frontmatter());
    }
    if !yaml_is_mapping(v) {
        return None;
    }
    let title = match read_str_field(v, "title") {
        Some(x) => x,
        None => return None,
    };
    let published = match read_bool_field(v, "published") {
        Some(x) => x,
        None => return None,
    };
    let tags = match read_tags_field(v, "tags") {
        Some(x) => x,
        None => return None,
    };
    let slug = match read_str_field(v, "slug") {
        Some(x) => x,
        None => return None,
    };
    let space = match read_str_field(v, "space") {
        Some(x) => x,
        None => return None,
    };
    Some(Frontmatter { title, published, tags, slug, space })
}

/// What `parse_frontmatter` returns on `s`: the decoded fields and the body.
/// A file that does not open a block, never closes it, or holds an
/// undecodable block keeps its whole text as the body, with default fields.
pub open spec fn spec_extract(s: Seq<char>) -> (FrontmatterView, Seq<char>) {
    let t = s.skip(ws_prefix_len(s));
    if !matches_at(t, "---"@, 0) {
        (default_frontmatter_view(), s)
    } else {
        let a = t.skip(3);
        match first_occ(a, "\n---"@, 0) {
            None => (default_frontmatter_view(), s),
            Some(e) => {
                let block = spec_trim(a.subrange(0, e));
                let tail = a.skip(e + 4);
                let body = if tail.len() > 0 && tail[0] == '\n' {
                    tail.skip(1)
                } else {
                    tail
                };
                match yaml_doc(block) {
                    None => (default_frontmatter_view(), s),
                    Some(y) => match fm_of_yaml(y) {
                        None => (default_frontmatter_view(), s),
                        Some(fm) => (fm, body),
                    },
                }
            },
        }
    }
}

/// A markdown file split into its metadata fields and its body.
pub struct ParsedContent {
    pub frontmatter: Frontmatter,
    pub content: String,
}

/// Splits an optional leading metadata block off `content` and decodes it.
pub fn parse_frontmatter(content: &str) -> (r: ParsedContent)
    ensures
        (r.frontmatter@, r.content@) == spec_extract(content@),
{
    let n = content.unicode_len();
    let k = first_non_ws(content);
    proof {
        reveal_strlit("---");
        reveal_strlit("\n---");
        lemma_ws_prefix_len_is(content@, k as int);
    }
    let trimmed = content.substring_char(k, n);
    if !has_at(trimmed, "---", 0) {
        return ParsedContent { frontmatter: default_frontmatter(), content: content.to_owned() };
    }
    let tn = trimmed.unicode_len();
    let after = trimmed.substring_char(3, tn);
    match find_from(after, "\n---", 0) {
        None => {
            proof {
                lemma_first_occ_none(after@, "\n---"@, 0);
            }
            ParsedContent { frontmatter: default_frontmatter(), content: content.to_owned() }
        },
        Some(e) => {
            proof {
                lemma_first_occ_is(after@, "\n---"@, e as int);
            }
            let raw_block = after.substring_char(0, e);
            let lo = first_non_ws(raw_block);
            let hi = last_non_ws(raw_block);
            proof {
                lemma_ws_prefix_len_is(raw_block@, lo as int);
                lemma_ws_suffix_start_is(raw_block@, hi as int);
            }
            let block = if lo >= raw_block.unicode_len() {
                proof {
                    reveal_strlit("");
                    assert(""@ =~= spec_trim(raw_block@));
                }
                ""
            } else {
                raw_block.substring_char(lo, hi)
            };
            let an = after.unicode_len();
            let tail = after.substring_char(e + 4, an);
            let tln = tail.unicode_len();
            let body = if tln > 0 && tail.get_char(0) == '\n' {
                tail.substring_char(1, tln)
            } else {
                tail
            };
            match parse_yaml(block) {
                None => ParsedContent {
                    frontmatter: default_frontmatter(),
                    content: content.to_owned(),
                },
                Some(v) => match frontmatter_of_value(&v) {
                    None => ParsedContent {
                        frontmatter: default_frontmatter(),
                        content: content.to_owned(),
                    },
                    Some(fm) => ParsedContent { frontmatter: fm, content: body.to_owned() },
                },
            }
        },
    }
}

proof fn lemma_first_occ_is(s: Seq<char>, pat: Seq<char>, j: int)
    requires
        matches_at(s, pat, j),
        forall|i: int| 0 <= i < j ==> !matches_at(s, pat, i),
    ensures
        first_occ(s, pat, 0) == Some(j),
{
    lemma_first_occ_from(s, pat, 0, j);
}

proof fn lemma_first_occ_from(s: Seq<char>, pat: Seq<char>, from: int, j: int)
    requires
        0 <= from <= j,
        matches_at(s, pat, j),
        forall|i: int| from <= i < j ==> !matches_at(s, pat, i),
    ensures
        first_occ(s, pat, from) == Some(j),
    decreases j - from,
{
    if from == j {
    } else {
        lemma_first_occ_from(s, pat, from + 1, j);
    }
}

proof fn lemma_first_occ_none(s: Seq<char>, pat: Seq<char>, from: int)
    requires
        0 <= from,
        forall|i: int| from <= i ==> !matches_at(s, pat, i),
    ensures
        first_occ(s, pat, from) is None,
    decreases s.len() + 1 - from,
{
    if from + pat.len() > s.len() {
    } else {
        assert(!matches_at(s, pat, from));
        lemma_first_occ_none(s, pat, from + 1);
    }
}

/// With no leading delimiter marker, extraction returns default fields and
/// the body is the input itself.
pub proof fn lemma_extract_no_marker(s: Seq<char>)
    requires
        !matches_at(s.skip(ws_prefix_len(s)), "---"@, 0),
    ensures
        spec_extract(s) == (default_frontmatter_view(), s),
{
}

/// With an opening delimiter but no closing one, extraction returns default
/// fields and the body is the input itself.
pub proof fn lemma_extract_unclosed(s: Seq<char>)
    requires
        matches_at(s.skip(ws_prefix_len(s)), "---"@, 0),
        first_occ(s.skip(ws_prefix_len(s)).skip(3), "\n---"@, 0) is None,
    ensures
        spec_extract(s) == (default_frontmatter_view(), s),
{
}

} // verus!
