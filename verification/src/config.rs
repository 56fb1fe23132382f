//! The local configuration: a bearer token and a base URL, persisted as a
//! single JSON object.  The library owns this file format: it encodes the
//! object itself, decodes any JSON spelling of that two-field object
//! (whitespace, field order and the standard string escapes included), and
//! proves that decoding inverts encoding.  Reading and writing the file
//! itself is the caller's job.

use vstd::prelude::*;
use vstd::string::*;
use crate::err::Error;
use crate::text::push_char;

verus! {

/// The persisted configuration.
pub struct Config {
    pub api_token: String,
    pub api_url: String,
}

/// Mathematical image of a `Config`.
pub struct ConfigView {
    pub api_token: Seq<char>,
    pub api_url: Seq<char>,
}

impl View for Config {
    type V = ConfigView;

    open spec fn view(&self) -> ConfigView {
        ConfigView { api_token: self.api_token@, api_url: self.api_url@ }
    }
}

/// The lower-case hexadecimal digit for `d`.
pub open spec fn hex_digit(d: int) -> char {
    if d == 0 {
        '0'
    } else if d == 1 {
        '1'
    } else if d == 2 {
        '2'
    } else if d == 3 {
        '3'
    } else if d == 4 {
        '4'
    } else if d == 5 {
        '5'
    } else if d == 6 {
        '6'
    } else if d == 7 {
        '7'
    } else if d == 8 {
        '8'
    } else if d == 9 {
        '9'
    } else if d == 10 {
        'a'
    } else if d == 11 {
        'b'
    } else if d == 12 {
        'c'
    } else if d == 13 {
        'd'
    } else if d == 14 {
        'e'
    } else {
        'f'
    }
}

/// The value of a hexadecimal digit character, or `-1`.
pub open spec fn hex_val(c: char) -> int {
    if '0' <= c && c <= '9' {
        (c as u32) - ('0' as u32)
    } else if 'a' <= c && c <= 'f' {
        (c as u32) - ('a' as u32) + 10
    } else if 'A' <= c && c <= 'F' {
        (c as u32) - ('A' as u32) + 10
    } else {
        -1
    }
}

/// Characters the encoder writes as an escape sequence.
pub open spec fn needs_escape(c: char) -> bool {
    c == '"' || c == '\\' || (c as u32) < 0x20
}

/// How the encoder writes one character of a string value.
pub open spec fn esc_char(c: char) -> Seq<char> {
    if needs_escape(c) {
        seq!['\\', 'u', '0', '0', hex_digit((c as u32) as int / 16), hex_digit(
            (c as u32) as int % 16,
        )]
    } else {
        seq![c]
    }
}

/// How the encoder writes a whole string value, quotes excluded.
pub open spec fn escape(s: Seq<char>) -> Seq<char>
    decreases s.len(),
{
    if s.len() == 0 {
        Seq::empty()
    } else {
        esc_char(s[0]) + escape(s.drop_first())
    }
}

/// The exact text the encoder produces for a configuration.
pub open spec fn spec_config_json(c: ConfigView) -> Seq<char> {
    "{\"api_token\":\""@ + escape(c.api_token) + "\",\"api_url\":\""@ + escape(c.api_url)
        + "\"}"@
}

/// The character an escape of the short form stands for, if the letter is
/// one of the standard ones.
pub open spec fn short_escape(e: char) -> Option<char> {
    if e == '"' {
        Some('"')
    } else if e == '\\' {
        Some('\\')
    } else if e == '/' {
        Some('/')
    } else if e == 'n' {
        Some('\n')
    } else if e == 't' {
        Some('\t')
    } else if e == 'r' {
        Some('\r')
    } else if e == 'b' {
        Some('\u{8}')
    } else if e == 'f' {
        Some('\u{c}')
    } else {
        None
    }
}

/// Four hexadecimal digits stand at position `i` of `s`.
pub open spec fn hex4_ok(s: Seq<char>, i: int) -> bool {
    hex_val(s[i]) >= 0 && hex_val(s[i + 1]) >= 0 && hex_val(s[i + 2]) >= 0 && hex_val(
        s[i + 3],
    ) >= 0
}

/// The value of the four hexadecimal digits at position `i` of `s`.
pub open spec fn hex4(s: Seq<char>, i: int) -> int {
    ((hex_val(s[i]) * 16 + hex_val(s[i + 1])) * 16 + hex_val(s[i + 2])) * 16 + hex_val(s[i + 3])
}

/// The character with scalar value `v`.
pub open spec fn char_of(v: int) -> char {
    (v as u32) as char
}

/// Parsing a JSON string body of `s` from position `i` (just after the
/// opening quote): the decoded content and the position just after the
/// closing quote.  Accepted escapes are the short standard ones and
/// `\u` with four hexadecimal digits, a high surrogate followed by its low
/// surrogate standing for one character beyond the basic plane.
pub open spec fn spec_parse_str(s: Seq<char>, i: int) -> Option<(Seq<char>, int)>
    decreases s.len() - i,
{
    if i < 0 || i >= s.len() {
        None
    } else if s[i] == '"' {
        Some((Seq::empty(), i + 1))
    } else if s[i] == '\\' {
        if i + 2 > s.len() {
            None
        } else if s[i + 1] == 'u' {
            if i + 6 > s.len() {
                None
            } else if hex4_ok(s, i + 2) {
                let v = hex4(s, i + 2);
                if 0xd800 <= v && v < 0xdc00 {
                    if i + 12 <= s.len() && s[i + 6] == '\\' && s[i + 7] == 'u' && hex4_ok(
                        s,
                        i + 8,
                    ) {
                        let w = hex4(s, i + 8);
                        if 0xdc00 <= w && w < 0xe000 {
                            let c = char_of(0x10000 + (v - 0xd800) * 0x400 + (w - 0xdc00));
                            match spec_parse_str(s, i + 12) {
                                Some((t, j)) => Some((seq![c] + t, j)),
                                None => None,
                            }
                        } else {
                            None
                        }
                    } else {
                        None
                    }
                } else if 0xdc00 <= v && v < 0xe000 {
                    None
                } else {
                    let c = char_of(v);
                    match spec_parse_str(s, i + 6) {
                        Some((t, j)) => Some((seq![c] + t, j)),
                        None => None,
                    }
                }
            } else {
                None
            }
        } else {
            match short_escape(s[i + 1]) {
                Some(c) => match spec_parse_str(s, i + 2) {
                    Some((t, j)) => Some((seq![c] + t, j)),
                    None => None,
                },
                None => None,
            }
        }
    } else if (s[i] as u32) < 0x20 {
        None
    } else {
        match spec_parse_str(s, i + 1) {
            Some((t, j)) => Some((seq![s[i]] + t, j)),
            None => None,
        }
    }
}

/// The whitespace JSON ignores between tokens.
pub open spec fn is_json_ws(c: char) -> bool {
    c == ' ' || c == '\t' || c == '\n' || c == '\r'
}

/// The first position at or after `i` holding no JSON whitespace.
pub open spec fn spec_skip_ws(s: Seq<char>, i: int) -> int
    decreases s.len() - i,
{
    if 0 <= i && i < s.len() && is_json_ws(s[i]) {
        spec_skip_ws(s, i + 1)
    } else {
        i
    }
}

/// One `"name": "value"` member of the object, starting at `i`: the name,
/// the value, and the position just after the value.
pub open spec fn spec_member(s: Seq<char>, i: int) -> Option<(Seq<char>, Seq<char>, int)> {
    if !(0 <= i && i < s.len() && s[i] == '"') {
        None
    } else {
        match spec_parse_str(s, i + 1) {
            None => None,
            Some((k, j)) => {
                let j1 = spec_skip_ws(s, j);
                if !(j1 < s.len() && s[j1] == ':') {
                    None
                } else {
                    let j2 = spec_skip_ws(s, j1 + 1);
                    if !(j2 < s.len() && s[j2] == '"') {
                        None
                    } else {
                        match spec_parse_str(s, j2 + 1) {
                            None => None,
                            Some((v, j3)) => Some((k, v, j3)),
                        }
                    }
                }
            },
        }
    }
}

/// What decoding a configuration file yields: a JSON object holding the
/// two fields `api_token` and `api_url` as strings, in either order, with
/// whitespace anywhere between tokens.
pub open spec fn spec_decode_config(s: Seq<char>) -> Option<ConfigView> {
    let i0 = spec_skip_ws(s, 0);
    if !(i0 < s.len() && s[i0] == '{') {
        None
    } else {
        match spec_member(s, spec_skip_ws(s, i0 + 1)) {
            None => None,
            Some((k1, v1, i2)) => {
                let i3 = spec_skip_ws(s, i2);
                if !(i3 < s.len() && s[i3] == ',') {
                    None
                } else {
                    match spec_member(s, spec_skip_ws(s, i3 + 1)) {
                        None => None,
                        Some((k2, v2, i5)) => {
                            let i6 = spec_skip_ws(s, i5);
                            if !(i6 < s.len() && s[i6] == '}') {
                                None
                            } else if spec_skip_ws(s, i6 + 1) != s.len() {
                                None
                            } else if k1 == "api_token"@ && k2 == "api_url"@ {
                                Some(ConfigView { api_token: v1, api_url: v2 })
                            } else if k1 == "api_url"@ && k2 == "api_token"@ {
                                Some(ConfigView { api_token: v2, api_url: v1 })
                            } else {
                                None
                            }
                        },
                    }
                }
            },
        }
    }
}

proof fn lemma_escape_snoc(s: Seq<char>, c: char)
    ensures
        escape(s.push(c)) == escape(s) + esc_char(c),
    decreases s.len(),
{
    let sp = s.push(c);
    assert(sp.len() == s.len() + 1);
    if s.len() == 0 {
        assert(sp[0] == c);
        assert(sp.drop_first() =~= Seq::<char>::empty());
        assert(escape(sp) == esc_char(c) + escape(Seq::<char>::empty()));
        assert(esc_char(c) + Seq::<char>::empty() =~= esc_char(c));
        assert(Seq::<char>::empty() + esc_char(c) =~= esc_char(c));
        assert(escape(sp) == escape(s) + esc_char(c));
    } else {
        assert(sp[0] == s[0]);
        assert(sp.drop_first() =~= s.drop_first().push(c));
        lemma_escape_snoc(s.drop_first(), c);
        assert(escape(sp) == esc_char(s[0]) + (escape(s.drop_first()) + esc_char(c)));
        assert(esc_char(s[0]) + (escape(s.drop_first()) + esc_char(c)) =~= (esc_char(s[0])
            + escape(s.drop_first())) + esc_char(c));
        assert(escape(sp) == escape(s) + esc_char(c));
    }
}

/// Appends `escape(t@)` to `out`.
fn append_escaped(out: &mut String, t: &str)
    ensures
        final(out)@ == old(out)@ + escape(t@),
{
    let n = t.unicode_len();
    let mut i: usize = 0;
    proof {
        assert(t@.subrange(0, 0) =~= Seq::<char>::empty());
        assert(old(out)@ + Seq::<char>::empty() =~= old(out)@);
    }
    while i < n
        invariant
            n == t@.len(),
            i <= n,
            out@ == old(out)@ + escape(t@.subrange(0, i as int)),
        decreases n - i,
    {
        proof {
            assert(t@.subrange(0, i + 1) =~= t@.subrange(0, i as int).push(t@[i as int]));
            lemma_escape_snoc(t@.subrange(0, i as int), t@[i as int]);
        }
        let c = t.get_char(i);
        if c == '"' || c == '\\' || (c as u32) < 0x20 {
            let v = c as u32;
            push_char(out, '\\');
            push_char(out, 'u');
            push_char(out, '0');
            push_char(out, '0');
            push_char(out, hex_digit_char((v / 16) as u8));
            push_char(out, hex_digit_char((v % 16) as u8));
            proof {
                assert(out@ =~= old(out)@ + escape(t@.subrange(0, i + 1)));
            }
        } else {
            push_char(out, c);
            proof {
                assert(out@ =~= old(out)@ + escape(t@.subrange(0, i + 1)));
            }
        }
        i += 1;
    }
    proof {
        assert(t@.subrange(0, n as int) =~= t@);
    }
}

fn hex_digit_char(d: u8) -> (c: char)
    requires
        d < 16,
    ensures
        c == hex_digit(d as int),
{
    if d == 0 {
        '0'
    } else if d == 1 {
        '1'
    } else if d == 2 {
        '2'
    } else if d == 3 {
        '3'
    } else if d == 4 {
        '4'
    } else if d == 5 {
        '5'
    } else if d == 6 {
        '6'
    } else if d == 7 {
        '7'
    } else if d == 8 {
        '8'
    } else if d == 9 {
        '9'
    } else if d == 10 {
        'a'
    } else if d == 11 {
        'b'
    } else if d == 12 {
        'c'
    } else if d == 13 {
        'd'
    } else if d == 14 {
        'e'
    } else {
        'f'
    }
}

/// Encodes a configuration as the JSON object text this library persists.
pub fn encode_config(c: &Config) -> (r: String)
    ensures
        r@ == spec_config_json(c@),
{
    let mut out = String::new();
    out.append("{\"api_token\":\"");
    append_escaped(&mut out, c.api_token.as_str());
    out.append("\",\"api_url\":\"");
    append_escaped(&mut out, c.api_url.as_str());
    out.append("\"}");
    proof {
        assert(out@ =~= spec_config_json(c@));
    }
    out
}

fn hex_val_char(c: char) -> (r: Option<u8>)
    ensures
        (match r {
            Some(v) => v as int,
            None => -1,
        }) == hex_val(c),
{
    if '0' <= c && c <= '9' {
        Some(((c as u32) - ('0' as u32)) as u8)
    } else if 'a' <= c && c <= 'f' {
        Some(((c as u32) - ('a' as u32) + 10) as u8)
    } else if 'A' <= c && c <= 'F' {
        Some(((c as u32) - ('A' as u32) + 10) as u8)
    } else {
        None
    }
}

/// Reads the four hexadecimal digits at `i`, as `hex4` values them.
fn read_hex4(s: &str, i: usize) -> (r: Option<u32>)
    requires
        i + 4 <= s@.len(),
        s@.len() <= usize::MAX,
    ensures
        r is Some <==> hex4_ok(s@, i as int),
        r matches Some(v) ==> v as int == hex4(s@, i as int) && v < 0x10000,
{
    let v1 = match hex_val_char(s.get_char(i)) {
        Some(v) => v,
        None => return None,
    };
    let v2 = match hex_val_char(s.get_char(i + 1)) {
        Some(v) => v,
        None => return None,
    };
    let v3 = match hex_val_char(s.get_char(i + 2)) {
        Some(v) => v,
        None => return None,
    };
    let v4 = match hex_val_char(s.get_char(i + 3)) {
        Some(v) => v,
        None => return None,
    };
    Some((((v1 as u32) * 16 + (v2 as u32)) * 16 + (v3 as u32)) * 16 + (v4 as u32))
}

/// Parses a JSON string body of `s` from `i0`, mirroring `spec_parse_str`.
fn parse_str_body(s: &str, i0: usize) -> (r: Option<(String, usize)>)
    requires
        i0 <= s@.len(),
    ensures
        (match r {
            Some(p) => Some((p.0@, p.1 as int)),
            None => None::<(Seq<char>, int)>,
        }) == spec_parse_str(s@, i0 as int),
        r matches Some(p) ==> p.1 <= s@.len(),
{
    let n = s.unicode_len();
    let mut acc = String::new();
    let mut i: usize = i0;
    proof {
        assert(Seq::<char>::empty() + Seq::<char>::empty() =~= Seq::<char>::empty());
    }
    loop
        invariant
            n == s@.len(),
            i0 <= i <= n,
            spec_parse_str(s@, i0 as int) == (match spec_parse_str(s@, i as int) {
                Some((t, j)) => Some((acc@ + t, j)),
                None => None::<(Seq<char>, int)>,
            }),
        decreases n - i,
    {
        if i >= n {
            return None;
        }
        let c = s.get_char(i);
        if c == '"' {
            proof {
                assert(acc@ + Seq::<char>::empty() =~= acc@);
            }
            return Some((acc, i + 1));
        }
        if c == '\\' {
            if n - i < 2 {
                return None;
            }
            let e = s.get_char(i + 1);
            if e == 'u' {
                if n - i < 6 {
                    return None;
                }
                let code = match read_hex4(s, i + 2) {
                    Some(v) => v,
                    None => return None,
                };
                if 0xd800 <= code && code < 0xdc00 {
                    if n - i < 12 {
                        return None;
                    }
                    if s.get_char(i + 6) != '\\' || s.get_char(i + 7) != 'u' {
                        return None;
                    }
                    let code2 = match read_hex4(s, i + 8) {
                        Some(v) => v,
                        None => return None,
                    };
                    if !(0xdc00 <= code2 && code2 < 0xe000) {
                        return None;
                    }
                    let full: u32 = 0x10000 + (code - 0xd800) * 0x400 + (code2 - 0xdc00);
                    let pc = match crate::text::char_from_u32(full) {
                        Some(c) => c,
                        None => {
                            proof {
                                assert(false);
                            }
                            return None;
                        },
                    };
                    let ghost prev = acc@;
                    push_char(&mut acc, pc);
                    proof {
                        let dc = char_of(
                            0x10000 + (hex4(s@, i + 2) - 0xd800) * 0x400 + (hex4(s@, i + 8)
                                - 0xdc00),
                        );
                        vstd::utf8::char_u32_cast(pc, full);
                        assert(pc == dc);
                        assert forall|t: Seq<char>| prev + (seq![dc] + t) =~= (prev.push(dc))
                            + t by {}
                    }
                    i += 12;
                } else if 0xdc00 <= code && code < 0xe000 {
                    return None;
                } else {
                    let pc = match crate::text::char_from_u32(code) {
                        Some(c) => c,
                        None => {
                            proof {
                                assert(false);
                            }
                            return None;
                        },
                    };
                    let ghost prev = acc@;
                    push_char(&mut acc, pc);
                    proof {
                        let dc = char_of(hex4(s@, i + 2));
                        vstd::utf8::char_u32_cast(pc, code);
                        assert(pc == dc);
                        assert forall|t: Seq<char>| prev + (seq![dc] + t) =~= (prev.push(dc))
                            + t by {}
                    }
                    i += 6;
                }
            } else {
                let m: Option<char> = if e == '"' {
                    Some('"')
                } else if e == '\\' {
                    Some('\\')
                } else if e == '/' {
                    Some('/')
                } else if e == 'n' {
                    Some('\n')
                } else if e == 't' {
                    Some('\t')
                } else if e == 'r' {
                    Some('\r')
                } else if e == 'b' {
                    Some('\u{8}')
                } else if e == 'f' {
                    Some('\u{c}')
                } else {
                    None
                };
                match m {
                    None => {
                        return None;
                    },
                    Some(mc) => {
                        let ghost prev = acc@;
                        push_char(&mut acc, mc);
                        proof {
                            assert forall|t: Seq<char>| prev + (seq![mc] + t) =~= (prev.push(mc))
                                + t by {}
                        }
                        i += 2;
                    },
                }
            }
        } else if (c as u32) < 0x20 {
            return None;
        } else {
            let ghost prev = acc@;
            push_char(&mut acc, c);
            proof {
                assert forall|t: Seq<char>| prev + (seq![c] + t) =~= (prev.push(c)) + t by {}
            }
            i += 1;
        }
    }
}

/// The first position at or after `i` with no JSON whitespace, mirroring
/// `spec_skip_ws`.
fn skip_ws(s: &str, i: usize) -> (r: usize)
    requires
        i <= s@.len(),
    ensures
        r as int == spec_skip_ws(s@, i as int),
        i <= r <= s@.len(),
{
    let n = s.unicode_len();
    let mut j: usize = i;
    while j < n
        invariant
            n == s@.len(),
            i <= j <= n,
            spec_skip_ws(s@, i as int) == spec_skip_ws(s@, j as int),
        decreases n - j,
    {
        let c = s.get_char(j);
        if !(c == ' ' || c == '\t' || c == '\n' || c == '\r') {
            return j;
        }
        j += 1;
    }
    j
}

/// Parses one `"name": "value"` member, mirroring `spec_member`.
fn parse_member(s: &str, i: usize) -> (r: Option<(String, String, usize)>)
    requires
        i <= s@.len(),
    ensures
        (match r {
            Some(t) => Some((t.0@, t.1@, t.2 as int)),
            None => None::<(Seq<char>, Seq<char>, int)>,
        }) == spec_member(s@, i as int),
        r matches Some(t) ==> t.2 <= s@.len(),
{
    let n = s.unicode_len();
    if !(i < n && s.get_char(i) == '"') {
        return None;
    }
    let (k, j) = match parse_str_body(s, i + 1) {
        Some(x) => x,
        None => return None,
    };
    let j1 = skip_ws(s, j);
    if !(j1 < n && s.get_char(j1) == ':') {
        return None;
    }
    let j2 = skip_ws(s, j1 + 1);
    if !(j2 < n && s.get_char(j2) == '"') {
        return None;
    }
    match parse_str_body(s, j2 + 1) {
        Some((v, j3)) => Some((k, v, j3)),
        None => None,
    }
}

/// Decodes the JSON object text of a configuration, mirroring
/// `spec_decode_config`; a failure says what was wrong with the text.
pub fn decode_config(s: &str) -> (r: Result<Config, String>)
    ensures
        r is Ok <==> spec_decode_config(s@) is Some,
        r matches Ok(c) ==> Some(c@) == spec_decode_config(s@),
        r matches Err(m) ==> m@.len() > 0,
{
    let n = s.unicode_len();
    let i0 = skip_ws(s, 0);
    if !(i0 < n && s.get_char(i0) == '{') {
        let m = "the file does not hold a JSON object";
        proof {
            reveal_strlit("the file does not hold a JSON object");
        }
        return Err(m.to_owned());
    }
    let i1 = skip_ws(s, i0 + 1);
    let (k1, v1, i2) = match parse_member(s, i1) {
        Some(x) => x,
        None => {
            let m = "a field is not a quoted name followed by a quoted string value";
            proof {
                reveal_strlit("a field is not a quoted name followed by a quoted string value");
            }
            return Err(m.to_owned());
        },
    };
    let i3 = skip_ws(s, i2);
    if !(i3 < n && s.get_char(i3) == ',') {
        let m = "expected a comma between the two fields";
        proof {
            reveal_strlit("expected a comma between the two fields");
        }
        return Err(m.to_owned());
    }
    let i4 = skip_ws(s, i3 + 1);
    let (k2, v2, i5) = match parse_member(s, i4) {
        Some(x) => x,
        None => {
            let m = "a field is not a quoted name followed by a quoted string value";
            proof {
                reveal_strlit("a field is not a quoted name followed by a quoted string value");
            }
            return Err(m.to_owned());
        },
    };
    let i6 = skip_ws(s, i5);
    if !(i6 < n && s.get_char(i6) == '}') {
        let m = "the object does not close with a brace";
        proof {
            reveal_strlit("the object does not close with a brace");
        }
        return Err(m.to_owned());
    }
    if skip_ws(s, i6 + 1) != n {
        let m = "text follows the closed object";
        proof {
            reveal_strlit("text follows the closed object");
        }
        return Err(m.to_owned());
    }
    if crate::text::str_eq(k1.as_str(), "api_token") && crate::text::str_eq(
        k2.as_str(),
        "api_url",
    ) {
        Ok(Config { api_token: v1, api_url: v2 })
    } else if crate::text::str_eq(k1.as_str(), "api_url") && crate::text::str_eq(
        k2.as_str(),
        "api_token",
    ) {
        Ok(Config { api_token: v2, api_url: v1 })
    } else {
        let m = "the object's fields are not api_token and api_url";
        proof {
            reveal_strlit("the object's fields are not api_token and api_url");
        }
        Err(m.to_owned())
    }
}

/// Decoding inverts encoding: a persisted configuration always loads back
/// as itself.
#[verifier::rlimit(100)]
pub proof fn lemma_config_round_trip(c: ConfigView)
    ensures
        spec_decode_config(spec_config_json(c)) == Some(c),
{
    reveal_strlit("{\"api_token\":\"");
    reveal_strlit("\",\"api_url\":\"");
    reveal_strlit("\"}");
    reveal_strlit("api_token");
    reveal_strlit("api_url");
    let s = spec_config_json(c);
    let et = escape(c.api_token);
    let eu = escape(c.api_url);
    let kt = "api_token"@;
    let ku = "api_url"@;
    assert(s =~= seq!['{', '"'] + kt + seq!['"', ':', '"'] + et + seq!['"', ',', '"'] + ku + seq![
        '"',
        ':',
        '"',
    ] + eu + seq!['"', '}']);
    assert(forall|j: int| 0 <= j < kt.len() ==> !needs_escape(#[trigger] kt[j]));
    assert(forall|j: int| 0 <= j < ku.len() ==> !needs_escape(#[trigger] ku[j]));
    let j3: int = 15 + et.len() as int;
    let k5: int = j3 + 13 + eu.len() as int;
    assert(s.len() == k5 + 1);
    assert(s[0] == '{' && s[1] == '"');
    assert(spec_skip_ws(s, 0) == 0);
    assert(spec_skip_ws(s, 1) == 1);
    assert(s.skip(2) =~= kt + seq!['"'] + s.skip(12));
    lemma_parse_plain(s, 2, kt, s.skip(12));
    assert(s[12] == ':' && s[13] == '"');
    assert(spec_skip_ws(s, 12) == 12);
    assert(spec_skip_ws(s, 13) == 13);
    assert(s.skip(14) =~= et + seq!['"'] + s.skip(j3));
    lemma_parse_escaped(s, 14, c.api_token, s.skip(j3));
    assert(spec_member(s, 1) == Some((kt, c.api_token, j3)));
    assert(s[j3] == ',' && s[j3 + 1] == '"');
    assert(spec_skip_ws(s, j3) == j3);
    assert(spec_skip_ws(s, j3 + 1) == j3 + 1);
    assert(s.skip(j3 + 2) =~= ku + seq!['"'] + s.skip(j3 + 10));
    lemma_parse_plain(s, j3 + 2, ku, s.skip(j3 + 10));
    assert(s[j3 + 10] == ':' && s[j3 + 11] == '"');
    assert(spec_skip_ws(s, j3 + 10) == j3 + 10);
    assert(spec_skip_ws(s, j3 + 11) == j3 + 11);
    assert(s.skip(j3 + 12) =~= eu + seq!['"'] + s.skip(k5));
    lemma_parse_escaped(s, j3 + 12, c.api_url, s.skip(k5));
    assert(spec_member(s, j3 + 1) == Some((ku, c.api_url, k5)));
    assert(s[k5] == '}');
    assert(spec_skip_ws(s, k5) == k5);
    assert(spec_skip_ws(s, k5 + 1) == s.len());
    assert(spec_decode_config(s) == Some(ConfigView { api_token: c.api_token, api_url: c.api_url }));
}

/// Parsing a quoted text that needs no escaping: the text itself, up to the
/// closing quote.
proof fn lemma_parse_plain(s: Seq<char>, i: int, t: Seq<char>, rest: Seq<char>)
    requires
        0 <= i <= s.len(),
        s.skip(i) == t + seq!['"'] + rest,
        forall|j: int| 0 <= j < t.len() ==> !needs_escape(#[trigger] t[j]),
    ensures
        spec_parse_str(s, i) == Some((t, i + t.len() + 1)),
    decreases t.len(),
{
    assert(s.skip(i).len() == s.len() - i);
    if t.len() == 0 {
        assert(t + seq!['"'] + rest =~= seq!['"'] + rest);
        assert(s[i] == s.skip(i)[0]);
        assert(s[i] == '"');
        assert(t =~= Seq::<char>::empty());
    } else {
        let c = t[0];
        let t2 = t.drop_first();
        assert(!needs_escape(c));
        assert(s[i] == s.skip(i)[0] && s.skip(i)[0] == c);
        assert(s.skip(i + 1) =~= t2 + seq!['"'] + rest) by {
            assert forall|x: int| 0 <= x < s.len() - (i + 1) implies #[trigger] s.skip(i + 1)[x]
                == (t2 + seq!['"'] + rest)[x] by {
                assert(s.skip(i + 1)[x] == s[i + 1 + x]);
                assert(s.skip(i)[x + 1] == s[i + 1 + x]);
                assert(s.skip(i)[x + 1] == (t + seq!['"'] + rest)[x + 1]);
            }
        }
        assert(forall|j: int| 0 <= j < t2.len() ==> !needs_escape(#[trigger] t2[j]));
        lemma_parse_plain(s, i + 1, t2, rest);
        assert(seq![c] + t2 =~= t);
    }
}

proof fn lemma_parse_escaped(s: Seq<char>, i: int, t: Seq<char>, rest: Seq<char>)
    requires
        0 <= i <= s.len(),
        s.skip(i) == escape(t) + seq!['"'] + rest,
    ensures
        spec_parse_str(s, i) == Some((t, i + escape(t).len() + 1)),
    decreases t.len(),
{
    assert(s.skip(i).len() == s.len() - i);
    if t.len() == 0 {
        assert(escape(t) + seq!['"'] + rest =~= seq!['"'] + rest);
        assert(s[i] == s.skip(i)[0]);
        assert(s[i] == '"');
        assert(t =~= Seq::<char>::empty());
    } else {
        let c = t[0];
        let t2 = t.drop_first();
        assert(escape(t) == esc_char(c) + escape(t2));
        let step = esc_char(c).len() as int;
        assert(escape(t).len() == step + escape(t2).len());
        assert(i + step <= s.len());
        assert(s.skip(i + step) =~= escape(t2) + seq!['"'] + rest) by {
            assert forall|x: int| 0 <= x < s.len() - (i + step) implies #[trigger] s.skip(
                i + step,
            )[x] == (escape(t2) + seq!['"'] + rest)[x] by {
                assert(s.skip(i + step)[x] == s[i + step + x]);
                assert(s.skip(i)[step + x] == s[i + step + x]);
                assert(s.skip(i)[step + x] == (escape(t) + seq!['"'] + rest)[step + x]);
            }
        }
        lemma_parse_escaped(s, i + step, t2, rest);
        if needs_escape(c) {
            let v = (c as u32) as int;
            assert(v < 0x5d);
            assert(s[i] == s.skip(i)[0] && s.skip(i)[0] == '\\');
            assert(s[i + 1] == s.skip(i)[1] && s.skip(i)[1] == 'u');
            assert(s[i + 2] == s.skip(i)[2] && s.skip(i)[2] == '0');
            assert(s[i + 3] == s.skip(i)[3] && s.skip(i)[3] == '0');
            assert(s[i + 4] == s.skip(i)[4] && s.skip(i)[4] == hex_digit(v / 16));
            assert(s[i + 5] == s.skip(i)[5] && s.skip(i)[5] == hex_digit(v % 16));
            assert(hex_val(hex_digit(v / 16)) == v / 16);
            assert(hex_val(hex_digit(v % 16)) == v % 16);
            assert(hex_val('0') == 0);
            assert(hex4_ok(s, i + 2));
            assert(hex4(s, i + 2) == v);
            assert(char_of(v) == c) by {
                vstd::utf8::char_u32_cast(c, c as u32);
                assert((c as u32) as char == c);
            }
            assert(seq![c] + t2 =~= t);
            assert(escape(t).len() == 6 + escape(t2).len());
        } else {
            assert(s[i] == s.skip(i)[0] && s.skip(i)[0] == c);
            assert(c != '"' && c != '\\' && (c as u32) >= 0x20);
            assert(seq![c] + t2 =~= t);
            assert(escape(t).len() == 1 + escape(t2).len());
        }
    }
}

/// Builds a configuration from its persisted file content: an absent file
/// means the user never logged in; a present but undecodable file is an
/// invalid configuration.
pub fn load_config_from(content: Option<&str>) -> (r: Result<Config, Error>)
    ensures
        content is None <==> (r matches Err(e) && e is NotLoggedIn),
        content matches Some(s) ==> match spec_decode_config(s@) {
            Some(c) => r matches Ok(cfg) && cfg@ == c,
            None => r matches Err(e) && (e matches Error::InvalidConfig(m) && m@.len() > 0),
        },
{
    match content {
        None => Err(Error::NotLoggedIn),
        Some(s) => match decode_config(s) {
            Ok(c) => Ok(c),
            Err(m) => Err(Error::InvalidConfig(m)),
        },
    }
}

} // verus!
