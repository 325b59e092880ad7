//! Parsing of wire JSON text into [`Json`] values.
//!
//! The parse is defined by spec functions over character sequences; each
//! executable function is proved to return exactly what its spec function
//! says. Array and object parsing carry an explicit work budget so that the
//! mutually recursive definitions terminate; the top-level entry point grants
//! a budget that covers any input of its length.
use vstd::prelude::*;

use crate::json::Json;
use crate::json::JsonV;
use crate::json::jsons_view;
use crate::json::members_view;
use crate::json::lemma_one_line_elems_cons;
use crate::json::lemma_one_line_members_cons;
use crate::json::no_nl;
use crate::json::one_line;
use crate::json::one_line_elems;
use crate::json::one_line_members;

verus! {

broadcast use vstd::std_specs::vec::group_vec_axioms, vstd::seq::group_seq_axioms;

/// JSON insignificant whitespace.
pub open spec fn is_ws(c: char) -> bool {
    c == ' ' || c == '\t' || c == '\n' || c == '\r'
}

pub open spec fn is_digit(c: char) -> bool {
    '0' <= c && c <= '9'
}

/// The first index at or after `i` holding no whitespace.
pub open spec fn sp_ws(s: Seq<char>, i: int) -> int
    decreases s.len() - i,
{
    if 0 <= i < s.len() && is_ws(s[i]) {
        sp_ws(s, i + 1)
    } else {
        i
    }
}

pub proof fn lemma_digits_end_bounds(s: Seq<char>, i: int)
    requires
        0 <= i <= s.len(),
    ensures
        i <= digits_end(s, i) <= s.len(),
    decreases s.len() - i,
{
    if i < s.len() && is_digit(s[i]) {
        lemma_digits_end_bounds(s, i + 1);
    }
}

/// The numeric value of a hexadecimal digit, or 16 when it is none.
pub open spec fn hex_val(c: char) -> int {
    if '0' <= c && c <= '9' {
        c as u32 - '0' as u32
    } else if 'a' <= c && c <= 'f' {
        c as u32 - 'a' as u32 + 10
    } else if 'A' <= c && c <= 'F' {
        c as u32 - 'A' as u32 + 10
    } else {
        16
    }
}

/// Four hexadecimal digits starting at `i`, as a code unit value.
pub open spec fn sp_hex4(s: Seq<char>, i: int) -> Option<int> {
    if 0 <= i && i + 4 <= s.len() && hex_val(s[i]) < 16 && hex_val(s[i + 1]) < 16 && hex_val(
        s[i + 2],
    ) < 16 && hex_val(s[i + 3]) < 16 {
        Some(hex_val(s[i]) * 0x1000 + hex_val(s[i + 1]) * 0x100 + hex_val(s[i + 2]) * 16 + hex_val(
            s[i + 3],
        ))
    } else {
        None
    }
}

/// String contents from `i` (just after the opening quote) through the
/// closing quote; yields the decoded contents and the index after the quote.
pub open spec fn sp_string(s: Seq<char>, i: int) -> Option<(Seq<char>, int)>
    decreases s.len() - i, 1int,
{
    if !(0 <= i < s.len()) {
        None
    } else {
        let c = s[i];
        if c == '"' {
            Some((Seq::empty(), i + 1))
        } else if c == '\\' {
            sp_escape(s, i)
        } else if (c as u32) < 0x20 {
            None
        } else {
            match sp_string(s, i + 1) {
                Some((rest, j)) => Some((seq![c] + rest, j)),
                None => None,
            }
        }
    }
}

/// The character a simple (single-letter) escape denotes, or `None`.
pub open spec fn simple_escape(c: char) -> Option<char> {
    if c == '"' {
        Some('"')
    } else if c == '\\' {
        Some('\\')
    } else if c == '/' {
        Some('/')
    } else if c == 'b' {
        Some('\u{0008}')
    } else if c == 'f' {
        Some('\u{000C}')
    } else if c == 'n' {
        Some('\n')
    } else if c == 'r' {
        Some('\r')
    } else if c == 't' {
        Some('\t')
    } else {
        None
    }
}

/// An escape sequence starting at the backslash at `i`, then the rest of the
/// string contents.
pub open spec fn sp_escape(s: Seq<char>, i: int) -> Option<(Seq<char>, int)>
    decreases s.len() - i, 0int,
{
    if !(0 <= i && i + 1 < s.len() && s[i] == '\\') {
        None
    } else {
        let e = s[i + 1];
        if e == 'u' {
            match sp_hex4(s, i + 2) {
                Some(h) => {
                    if 0xD800 <= h < 0xDC00 {
                        // A high surrogate must be followed by an escaped low
                        // surrogate; together they denote one character.
                        if i + 8 <= s.len() && s[i + 6] == '\\' && s[i + 7] == 'u' {
                            match sp_hex4(s, i + 8) {
                                Some(l) => {
                                    if 0xDC00 <= l < 0xE000 {
                                        let code = 0x10000 + (h - 0xD800) * 0x400 + (l - 0xDC00);
                                        match sp_string(s, i + 12) {
                                            Some((rest, j)) => Some(
                                                (seq![(code as u32) as char] + rest, j),
                                            ),
                                            None => None,
                                        }
                                    } else {
                                        None
                                    }
                                },
                                None => None,
                            }
                        } else {
                            None
                        }
                    } else if 0xDC00 <= h < 0xE000 {
                        None
                    } else {
                        match sp_string(s, i + 6) {
                            Some((rest, j)) => Some((seq![(h as u32) as char] + rest, j)),
                            None => None,
                        }
                    }
                },
                None => None,
            }
        } else {
            match simple_escape(e) {
                Some(c) => match sp_string(s, i + 2) {
                    Some((rest, j)) => Some((seq![c] + rest, j)),
                    None => None,
                },
                None => None,
            }
        }
    }
}

/// The end of the run of decimal digits starting at `i`.
pub open spec fn digits_end(s: Seq<char>, i: int) -> int
    decreases s.len() - i,
{
    if 0 <= i < s.len() && is_digit(s[i]) {
        digits_end(s, i + 1)
    } else {
        i
    }
}

/// End of the optional fraction part starting at `i`; `None` when a dot is
/// not followed by a digit.
pub open spec fn sp_frac(s: Seq<char>, i: int) -> Option<int> {
    if 0 <= i < s.len() && s[i] == '.' {
        if i + 1 < s.len() && is_digit(s[i + 1]) {
            Some(digits_end(s, i + 1))
        } else {
            None
        }
    } else {
        Some(i)
    }
}

/// End of the optional exponent part starting at `i`.
pub open spec fn sp_exp(s: Seq<char>, i: int) -> Option<int> {
    if 0 <= i < s.len() && (s[i] == 'e' || s[i] == 'E') {
        let j = if i + 1 < s.len() && (s[i + 1] == '+' || s[i + 1] == '-') {
            i + 2
        } else {
            i + 1
        };
        if j < s.len() && is_digit(s[j]) {
            Some(digits_end(s, j))
        } else {
            None
        }
    } else {
        Some(i)
    }
}

/// A number token starting at `i`: its verbatim text and its end.
pub open spec fn sp_number(s: Seq<char>, i: int) -> Option<(Seq<char>, int)> {
    let i1 = if 0 <= i < s.len() && s[i] == '-' {
        i + 1
    } else {
        i
    };
    if !(0 <= i1 < s.len() && is_digit(s[i1])) {
        None
    } else {
        let i2 = if s[i1] == '0' {
            i1 + 1
        } else {
            digits_end(s, i1)
        };
        match sp_frac(s, i2) {
            Some(i3) => match sp_exp(s, i3) {
                Some(i4) => Some((s.subrange(i, i4), i4)),
                None => None,
            },
            None => None,
        }
    }
}

/// A JSON value starting exactly at `i` (no leading whitespace), ending at
/// the returned index. Runs under a work budget; see [`parse_budget`].
pub open spec fn sp_value(s: Seq<char>, i: int, fuel: nat) -> Option<(JsonV, int)>
    decreases fuel,
{
    if fuel == 0 {
        None
    } else if !(0 <= i < s.len()) {
        None
    } else {
        let c = s[i];
        if c == 'n' {
            if i + 4 <= s.len() && s[i + 1] == 'u' && s[i + 2] == 'l' && s[i + 3] == 'l' {
                Some((JsonV::Null, i + 4))
            } else {
                None
            }
        } else if c == 't' {
            if i + 4 <= s.len() && s[i + 1] == 'r' && s[i + 2] == 'u' && s[i + 3] == 'e' {
                Some((JsonV::Bool(true), i + 4))
            } else {
                None
            }
        } else if c == 'f' {
            if i + 5 <= s.len() && s[i + 1] == 'a' && s[i + 2] == 'l' && s[i + 3] == 's' && s[i
                + 4] == 'e' {
                Some((JsonV::Bool(false), i + 5))
            } else {
                None
            }
        } else if c == '"' {
            match sp_string(s, i + 1) {
                Some((cs, j)) => Some((JsonV::Str(cs), j)),
                None => None,
            }
        } else if c == '[' {
            let j = sp_ws(s, i + 1);
            if j < s.len() && s[j] == ']' {
                Some((JsonV::Arr(Seq::empty()), j + 1))
            } else {
                match sp_elems(s, j, (fuel - 1) as nat) {
                    Some((es, k)) => Some((JsonV::Arr(es), k)),
                    None => None,
                }
            }
        } else if c == '{' {
            let j = sp_ws(s, i + 1);
            if j < s.len() && s[j] == '}' {
                Some((JsonV::Obj(Seq::empty()), j + 1))
            } else {
                match sp_members(s, j, (fuel - 1) as nat) {
                    Some((ms, k)) => Some((JsonV::Obj(ms), k)),
                    None => None,
                }
            }
        } else if c == '-' || is_digit(c) {
            match sp_number(s, i) {
                Some((tok, j)) => Some((JsonV::Num(tok), j)),
                None => None,
            }
        } else {
            None
        }
    }
}

/// One or more comma-separated array elements starting at `i`, through the
/// closing bracket.
pub open spec fn sp_elems(s: Seq<char>, i: int, fuel: nat) -> Option<(Seq<JsonV>, int)>
    decreases fuel,
{
    if fuel == 0 {
        None
    } else {
        match sp_value(s, i, (fuel - 1) as nat) {
            Some((v, j)) => {
                let k = sp_ws(s, j);
                if k < s.len() && s[k] == ',' {
                    match sp_elems(s, sp_ws(s, k + 1), (fuel - 1) as nat) {
                        Some((rest, m)) => Some((seq![v] + rest, m)),
                        None => None,
                    }
                } else if k < s.len() && s[k] == ']' {
                    Some((seq![v], k + 1))
                } else {
                    None
                }
            },
            None => None,
        }
    }
}

/// One or more object members starting at the key's quote at `i`, through
/// the closing brace.
pub open spec fn sp_members(s: Seq<char>, i: int, fuel: nat) -> Option<
    (Seq<(Seq<char>, JsonV)>, int),
>
    decreases fuel,
{
    if fuel == 0 {
        None
    } else if !(0 <= i < s.len() && s[i] == '"') {
        None
    } else {
        match sp_string(s, i + 1) {
            Some((key, j)) => {
                let k = sp_ws(s, j);
                if k < s.len() && s[k] == ':' {
                    match sp_value(s, sp_ws(s, k + 1), (fuel - 1) as nat) {
                        Some((v, m)) => {
                            let p = sp_ws(s, m);
                            if p < s.len() && s[p] == ',' {
                                match sp_members(s, sp_ws(s, p + 1), (fuel - 1) as nat) {
                                    Some((rest, r)) => Some((seq![(key, v)] + rest, r)),
                                    None => None,
                                }
                            } else if p < s.len() && s[p] == '}' {
                                Some((seq![(key, v)], p + 1))
                            } else {
                                None
                            }
                        },
                        None => None,
                    }
                } else {
                    None
                }
            },
            None => None,
        }
    }
}

/// The work budget granted to parse a text of length `n`: ample for any
/// input of that length.
pub open spec fn parse_budget(n: nat) -> nat {
    2 * n + 2
}

/// The parse of a complete JSON text: one value, with whitespace allowed
/// around it and nothing else.
pub open spec fn sp_json(s: Seq<char>) -> Option<JsonV> {
    match sp_value(s, sp_ws(s, 0), parse_budget(s.len())) {
        Some((v, j)) => if sp_ws(s, j) == s.len() {
            Some(v)
        } else {
            None
        },
        None => None,
    }
}

/// Advances past whitespace.
fn x_ws(s: &str, n: usize, i: usize) -> (r: usize)
    requires
        n == s@.len(),
        i <= n,
    ensures
        i <= r <= n,
        r as int == sp_ws(s@, i as int),
{
    let mut j: usize = i;
    loop
        invariant
            n == s@.len(),
            i <= j <= n,
            sp_ws(s@, i as int) == sp_ws(s@, j as int),
        ensures
            i <= j <= n,
            sp_ws(s@, i as int) == sp_ws(s@, j as int),
            j == n || !is_ws(s@[j as int]),
        decreases n - j,
    {
        if j < n {
            let c = s.get_char(j);
            if c == ' ' || c == '\t' || c == '\n' || c == '\r' {
                j += 1;
                continue ;
            }
        }
        break ;
    }
    j
}

/// True when `c` is a decimal digit.
pub(crate) fn x_is_digit(c: char) -> (r: bool)
    ensures
        r == is_digit(c),
{
    let d = c as u32;
    0x30 <= d && d <= 0x39
}

/// The numeric value of a hexadecimal digit, 16 when it is none.
fn x_hex_val(c: char) -> (r: u32)
    ensures
        r as int == hex_val(c),
{
    let d = c as u32;
    if 0x30 <= d && d <= 0x39 {
        d - 0x30
    } else if 0x61 <= d && d <= 0x66 {
        d - 0x61 + 10
    } else if 0x41 <= d && d <= 0x46 {
        d - 0x41 + 10
    } else {
        16
    }
}

/// Four hexadecimal digits starting at `i`.
fn x_hex4(s: &str, n: usize, i: usize) -> (r: Option<u32>)
    requires
        n == s@.len(),
        i <= n,
    ensures
        r is Some <==> sp_hex4(s@, i as int) is Some,
        r is Some ==> r.unwrap() as int == sp_hex4(s@, i as int).unwrap(),
        r is Some ==> r.unwrap() < 0x10000,
{
    if n - i < 4 {
        return None;
    }
    let h0 = x_hex_val(s.get_char(i));
    let h1 = x_hex_val(s.get_char(i + 1));
    let h2 = x_hex_val(s.get_char(i + 2));
    let h3 = x_hex_val(s.get_char(i + 3));
    if h0 < 16 && h1 < 16 && h2 < 16 && h3 < 16 {
        Some(h0 * 0x1000 + h1 * 0x100 + h2 * 16 + h3)
    } else {
        None
    }
}

/// String contents from `i` (just after the opening quote).
fn x_string(s: &str, n: usize, i: usize) -> (r: Option<(Vec<char>, usize)>)
    requires
        n == s@.len(),
        i <= n,
    ensures
        r is Some <==> sp_string(s@, i as int) is Some,
        r is Some ==> r.unwrap().0@ == sp_string(s@, i as int).unwrap().0,
        r is Some ==> r.unwrap().1 as int == sp_string(s@, i as int).unwrap().1,
        r is Some ==> i < r.unwrap().1 <= n,
    decreases n - i, 1int,
{
    if i >= n {
        return None;
    }
    let c = s.get_char(i);
    if c == '"' {
        Some((Vec::new(), i + 1))
    } else if c == '\\' {
        x_escape(s, n, i)
    } else if (c as u32) < 0x20 {
        None
    } else {
        match x_string(s, n, i + 1) {
            Some((rest, j)) => {
                let mut rest = rest;
                let ghost prev = rest@;
                rest.insert(0, c);
                proof {
                    assert(rest@ =~= seq![c] + prev);
                }
                Some((rest, j))
            },
            None => None,
        }
    }
}

/// An escape sequence starting at the backslash at `i`.
fn x_escape(s: &str, n: usize, i: usize) -> (r: Option<(Vec<char>, usize)>)
    requires
        n == s@.len(),
        i <= n,
    ensures
        r is Some <==> sp_escape(s@, i as int) is Some,
        r is Some ==> r.unwrap().0@ == sp_escape(s@, i as int).unwrap().0,
        r is Some ==> r.unwrap().1 as int == sp_escape(s@, i as int).unwrap().1,
        r is Some ==> i < r.unwrap().1 <= n,
    decreases n - i, 0int,
{
    if n - i < 2 {
        return None;
    }
    if s.get_char(i) != '\\' {
        return None;
    }
    let e = s.get_char(i + 1);
    if e == 'u' {
        let h = match x_hex4(s, n, i + 2) {
            Some(h) => h,
            None => {
                return None;
            },
        };
        if 0xD800 <= h && h < 0xDC00 {
            if n - i >= 8 && s.get_char(i + 6) == '\\' && s.get_char(i + 7) == 'u' {
                let l = match x_hex4(s, n, i + 8) {
                    Some(l) => l,
                    None => {
                        return None;
                    },
                };
                if 0xDC00 <= l && l < 0xE000 {
                    let code: u32 = 0x10000 + (h - 0xD800) * 0x400 + (l - 0xDC00);
                    let c = match crate::text::char_from_code(code) {
                        Some(c) => c,
                        None => {
                            return None;
                        },
                    };
                    proof {
                        vstd::utf8::char_u32_cast(c, code);
                    }
                    match x_string(s, n, i + 12) {
                        Some((rest, j)) => {
                            let mut rest = rest;
                            let ghost prev = rest@;
                            rest.insert(0, c);
                            proof {
                                assert(rest@ =~= seq![c] + prev);
                            }
                            Some((rest, j))
                        },
                        None => None,
                    }
                } else {
                    None
                }
            } else {
                None
            }
        } else if 0xDC00 <= h && h < 0xE000 {
            None
        } else {
            let c = match crate::text::char_from_code(h) {
                Some(c) => c,
                None => {
                    return None;
                },
            };
            proof {
                vstd::utf8::char_u32_cast(c, h);
            }
            match x_string(s, n, i + 6) {
                Some((rest, j)) => {
                    let mut rest = rest;
                    let ghost prev = rest@;
                    rest.insert(0, c);
                    proof {
                        assert(rest@ =~= seq![c] + prev);
                    }
                    Some((rest, j))
                },
                None => None,
            }
        }
    } else {
        let c = if e == '"' {
            '"'
        } else if e == '\\' {
            '\\'
        } else if e == '/' {
            '/'
        } else if e == 'b' {
            '\u{0008}'
        } else if e == 'f' {
            '\u{000C}'
        } else if e == 'n' {
            '\n'
        } else if e == 'r' {
            '\r'
        } else if e == 't' {
            '\t'
        } else {
            return None;
        };
        match x_string(s, n, i + 2) {
            Some((rest, j)) => {
                let mut rest = rest;
                let ghost prev = rest@;
                rest.insert(0, c);
                proof {
                    assert(rest@ =~= seq![c] + prev);
                }
                Some((rest, j))
            },
            None => None,
        }
    }
}

/// Advances past decimal digits.
fn x_digits_end(s: &str, n: usize, i: usize) -> (r: usize)
    requires
        n == s@.len(),
        i <= n,
    ensures
        i <= r <= n,
        r as int == digits_end(s@, i as int),
{
    let mut j: usize = i;
    loop
        invariant
            n == s@.len(),
            i <= j <= n,
            digits_end(s@, i as int) == digits_end(s@, j as int),
        ensures
            i <= j <= n,
            digits_end(s@, i as int) == digits_end(s@, j as int),
            j == n || !is_digit(s@[j as int]),
        decreases n - j,
    {
        if j < n {
            if x_is_digit(s.get_char(j)) {
                j += 1;
                continue ;
            }
        }
        break ;
    }
    j
}

/// A number token starting at `i`.
fn x_number(s: &str, n: usize, i: usize) -> (r: Option<(String, usize)>)
    requires
        n == s@.len(),
        i < n,
    ensures
        r is Some <==> sp_number(s@, i as int) is Some,
        r is Some ==> r.unwrap().0@ == sp_number(s@, i as int).unwrap().0,
        r is Some ==> r.unwrap().1 as int == sp_number(s@, i as int).unwrap().1,
        r is Some ==> i < r.unwrap().1 <= n,
{
    let i1 = if s.get_char(i) == '-' {
        i + 1
    } else {
        i
    };
    if !(i1 < n && x_is_digit(s.get_char(i1))) {
        return None;
    }
    let i2 = if s.get_char(i1) == '0' {
        i1 + 1
    } else {
        proof {
            lemma_digits_end_bounds(s@, i1 + 1);
        }
        x_digits_end(s, n, i1)
    };
    let i3 = if i2 < n && s.get_char(i2) == '.' {
        if i2 + 1 < n && x_is_digit(s.get_char(i2 + 1)) {
            x_digits_end(s, n, i2 + 1)
        } else {
            return None;
        }
    } else {
        i2
    };
    proof {
        assert(sp_frac(s@, i2 as int) == Some(i3 as int));
    }
    let i4 = if i3 < n && (s.get_char(i3) == 'e' || s.get_char(i3) == 'E') {
        let j = if i3 + 1 < n && (s.get_char(i3 + 1) == '+' || s.get_char(i3 + 1) == '-') {
            i3 + 2
        } else {
            i3 + 1
        };
        if j < n && x_is_digit(s.get_char(j)) {
            x_digits_end(s, n, j)
        } else {
            return None;
        }
    } else {
        i3
    };
    proof {
        assert(sp_exp(s@, i3 as int) == Some(i4 as int));
    }
    let tok = s.substring_char(i, i4).to_owned();
    Some((tok, i4))
}

/// A JSON value starting exactly at `i`, under a work budget.
fn x_value(s: &str, n: usize, i: usize, fuel: u64) -> (r: Option<(Json, usize)>)
    requires
        n == s@.len(),
        i <= n,
    ensures
        r is Some <==> sp_value(s@, i as int, fuel as nat) is Some,
        r is Some ==> r.unwrap().0@ == sp_value(s@, i as int, fuel as nat).unwrap().0,
        r is Some ==> r.unwrap().1 as int == sp_value(s@, i as int, fuel as nat).unwrap().1,
        r is Some ==> i < r.unwrap().1 <= n,
    decreases fuel,
{
    if fuel == 0 {
        return None;
    }
    if i >= n {
        return None;
    }
    let c = s.get_char(i);
    if c == 'n' {
        if n - i >= 4 && s.get_char(i + 1) == 'u' && s.get_char(i + 2) == 'l' && s.get_char(i + 3)
            == 'l' {
            Some((Json::Null, i + 4))
        } else {
            None
        }
    } else if c == 't' {
        if n - i >= 4 && s.get_char(i + 1) == 'r' && s.get_char(i + 2) == 'u' && s.get_char(i + 3)
            == 'e' {
            Some((Json::Bool(true), i + 4))
        } else {
            None
        }
    } else if c == 'f' {
        if n - i >= 5 && s.get_char(i + 1) == 'a' && s.get_char(i + 2) == 'l' && s.get_char(i + 3)
            == 's' && s.get_char(i + 4) == 'e' {
            Some((Json::Bool(false), i + 5))
        } else {
            None
        }
    } else if c == '"' {
        match x_string(s, n, i + 1) {
            Some((cs, j)) => {
                let text = crate::text::chars_to_string(&cs);
                Some((Json::Str(text), j))
            },
            None => None,
        }
    } else if c == '[' {
        let j = x_ws(s, n, i + 1);
        if j < n && s.get_char(j) == ']' {
            let empty: Vec<Json> = Vec::new();
            proof {
                assert(jsons_view(empty@) =~= Seq::<JsonV>::empty());
            }
            Some((Json::Arr(empty), j + 1))
        } else {
            match x_elems(s, n, j, fuel - 1) {
                Some((es, k)) => Some((Json::Arr(es), k)),
                None => None,
            }
        }
    } else if c == '{' {
        let j = x_ws(s, n, i + 1);
        if j < n && s.get_char(j) == '}' {
            let empty: Vec<(String, Json)> = Vec::new();
            proof {
                assert(members_view(empty@) =~= Seq::<(Seq<char>, JsonV)>::empty());
            }
            Some((Json::Obj(empty), j + 1))
        } else {
            match x_members(s, n, j, fuel - 1) {
                Some((ms, k)) => Some((Json::Obj(ms), k)),
                None => None,
            }
        }
    } else if c == '-' || x_is_digit(c) {
        match x_number(s, n, i) {
            Some((tok, j)) => Some((Json::Num(tok), j)),
            None => None,
        }
    } else {
        None
    }
}

/// Comma-separated array elements through the closing bracket.
fn x_elems(s: &str, n: usize, i: usize, fuel: u64) -> (r: Option<(Vec<Json>, usize)>)
    requires
        n == s@.len(),
        i <= n,
    ensures
        r is Some <==> sp_elems(s@, i as int, fuel as nat) is Some,
        r is Some ==> jsons_view(r.unwrap().0@) == sp_elems(s@, i as int, fuel as nat).unwrap().0,
        r is Some ==> r.unwrap().1 as int == sp_elems(s@, i as int, fuel as nat).unwrap().1,
        r is Some ==> i < r.unwrap().1 <= n,
    decreases fuel,
{
    if fuel == 0 {
        return None;
    }
    match x_value(s, n, i, fuel - 1) {
        Some((v, j)) => {
            let k = x_ws(s, n, j);
            if k < n && s.get_char(k) == ',' {
                let q = x_ws(s, n, k + 1);
                match x_elems(s, n, q, fuel - 1) {
                    Some((rest, m)) => {
                        let mut rest = rest;
                        let ghost prev = rest@;
                        let ghost vv = v@;
                        rest.insert(0, v);
                        proof {
                            assert(jsons_view(rest@) =~= seq![vv] + jsons_view(prev));
                        }
                        Some((rest, m))
                    },
                    None => None,
                }
            } else if k < n && s.get_char(k) == ']' {
                let ghost vv = v@;
                let mut one: Vec<Json> = Vec::new();
                one.push(v);
                proof {
                    assert(jsons_view(one@) =~= seq![vv]);
                }
                Some((one, k + 1))
            } else {
                None
            }
        },
        None => None,
    }
}

/// Object members through the closing brace.
fn x_members(s: &str, n: usize, i: usize, fuel: u64) -> (r: Option<(Vec<(String, Json)>, usize)>)
    requires
        n == s@.len(),
        i <= n,
    ensures
        r is Some <==> sp_members(s@, i as int, fuel as nat) is Some,
        r is Some ==> members_view(r.unwrap().0@) == sp_members(
            s@,
            i as int,
            fuel as nat,
        ).unwrap().0,
        r is Some ==> r.unwrap().1 as int == sp_members(s@, i as int, fuel as nat).unwrap().1,
        r is Some ==> i < r.unwrap().1 <= n,
    decreases fuel,
{
    if fuel == 0 {
        return None;
    }
    if !(i < n && s.get_char(i) == '"') {
        return None;
    }
    match x_string(s, n, i + 1) {
        Some((key_chars, j)) => {
            let key = crate::text::chars_to_string(&key_chars);
            let k = x_ws(s, n, j);
            if k < n && s.get_char(k) == ':' {
                let vstart = x_ws(s, n, k + 1);
                match x_value(s, n, vstart, fuel - 1) {
                    Some((v, m)) => {
                        let p = x_ws(s, n, m);
                        if p < n && s.get_char(p) == ',' {
                            let q = x_ws(s, n, p + 1);
                            match x_members(s, n, q, fuel - 1) {
                                Some((rest, r2)) => {
                                    let mut rest = rest;
                                    let ghost prev = rest@;
                                    let ghost kv = (key@, v@);
                                    rest.insert(0, (key, v));
                                    proof {
                                        assert(members_view(rest@) =~= seq![kv] + members_view(
                                            prev,
                                        ));
                                    }
                                    Some((rest, r2))
                                },
                                None => None,
                            }
                        } else if p < n && s.get_char(p) == '}' {
                            let ghost kv = (key@, v@);
                            let mut one: Vec<(String, Json)> = Vec::new();
                            one.push((key, v));
                            proof {
                                assert(members_view(one@) =~= seq![kv]);
                            }
                            Some((one, p + 1))
                        } else {
                            None
                        }
                    },
                    None => None,
                }
            } else {
                None
            }
        },
        None => None,
    }
}

/// Parses a complete JSON text: one value with only whitespace around it.
///
/// The length bound keeps the work budget computable; any text that fits in
/// memory satisfies it.
pub fn parse_json_text(s: &str) -> (r: Option<Json>)
    requires
        s@.len() <= 0x1000_0000_0000_0000,
    ensures
        r is Some <==> sp_json(s@) is Some,
        r is Some ==> r.unwrap()@ == sp_json(s@).unwrap(),
{
    let n = s.unicode_len();
    let fuel: u64 = 2 * (n as u64) + 2;
    proof {
        assert(fuel as nat == parse_budget(s@.len()));
    }
    let i0 = x_ws(s, n, 0);
    match x_value(s, n, i0, fuel) {
        Some((v, j)) => {
            let k = x_ws(s, n, j);
            if k == n {
                Some(v)
            } else {
                None
            }
        },
        None => None,
    }
}

proof fn lemma_digits_region(s: Seq<char>, i: int)
    requires
        0 <= i <= s.len(),
    ensures
        forall|j: int| i <= j < digits_end(s, i) ==> is_digit(#[trigger] s[j]),
    decreases s.len() - i,
{
    if i < s.len() && is_digit(s[i]) {
        lemma_digits_region(s, i + 1);
    }
}

/// A number token never holds a newline: its characters are digits, the
/// sign, the dot, and the exponent letters.
proof fn lemma_number_token_no_nl(s: Seq<char>, i: int)
    requires
        0 <= i <= s.len(),
        sp_number(s, i) is Some,
    ensures
        no_nl(sp_number(s, i)->Some_0.0),
{
    let i1 = if 0 <= i < s.len() && s[i] == '-' {
        i + 1
    } else {
        i
    };
    let i2 = if s[i1] == '0' {
        i1 + 1
    } else {
        digits_end(s, i1)
    };
    lemma_digits_end_bounds(s, i1);
    lemma_digits_region(s, i1);
    let i3 = sp_frac(s, i2)->Some_0;
    let i4 = sp_exp(s, i3)->Some_0;
    if 0 <= i2 < s.len() && s[i2] == '.' {
        lemma_digits_end_bounds(s, i2 + 1);
        lemma_digits_region(s, i2 + 1);
    }
    if 0 <= i3 < s.len() && (s[i3] == 'e' || s[i3] == 'E') {
        let j = if i3 + 1 < s.len() && (s[i3 + 1] == '+' || s[i3 + 1] == '-') {
            i3 + 2
        } else {
            i3 + 1
        };
        lemma_digits_end_bounds(s, j);
        lemma_digits_region(s, j);
    }
    let tok = s.subrange(i, i4);
    assert forall|k: int| 0 <= k < tok.len() implies tok[k] != '\n' by {
        let p = i + k;
        assert(tok[k] == s[p]);
    }
}

/// A parsed value is one-line: its number tokens hold no newline.
proof fn lemma_parsed_value_one_line(s: Seq<char>, i: int, fuel: nat)
    requires
        sp_value(s, i, fuel) is Some,
    ensures
        one_line(sp_value(s, i, fuel)->Some_0.0),
    decreases fuel,
{
    let c = s[i];
    if c == 'n' || c == 't' || c == 'f' || c == '"' {
    } else if c == '[' {
        let j = sp_ws(s, i + 1);
        if j < s.len() && s[j] == ']' {
        } else {
            lemma_parsed_elems_one_line(s, j, (fuel - 1) as nat);
        }
    } else if c == '{' {
        let j = sp_ws(s, i + 1);
        if j < s.len() && s[j] == '}' {
        } else {
            lemma_parsed_members_one_line(s, j, (fuel - 1) as nat);
        }
    } else {
        assert(0 <= i < s.len());
        lemma_number_token_no_nl(s, i);
    }
}

proof fn lemma_parsed_elems_one_line(s: Seq<char>, i: int, fuel: nat)
    requires
        sp_elems(s, i, fuel) is Some,
    ensures
        one_line_elems(sp_elems(s, i, fuel)->Some_0.0),
    decreases fuel,
{
    let (v, j) = sp_value(s, i, (fuel - 1) as nat)->Some_0;
    lemma_parsed_value_one_line(s, i, (fuel - 1) as nat);
    let k = sp_ws(s, j);
    if k < s.len() && s[k] == ',' {
        let (rest, _m) = sp_elems(s, sp_ws(s, k + 1), (fuel - 1) as nat)->Some_0;
        lemma_parsed_elems_one_line(s, sp_ws(s, k + 1), (fuel - 1) as nat);
        lemma_one_line_elems_cons(v, rest);
    } else {
        lemma_one_line_elems_cons(v, Seq::empty());
        assert(seq![v] + Seq::<JsonV>::empty() =~= seq![v]);
    }
}

proof fn lemma_parsed_members_one_line(s: Seq<char>, i: int, fuel: nat)
    requires
        sp_members(s, i, fuel) is Some,
    ensures
        one_line_members(sp_members(s, i, fuel)->Some_0.0),
    decreases fuel,
{
    let (key, j) = sp_string(s, i + 1)->Some_0;
    let k = sp_ws(s, j);
    let (v, m) = sp_value(s, sp_ws(s, k + 1), (fuel - 1) as nat)->Some_0;
    lemma_parsed_value_one_line(s, sp_ws(s, k + 1), (fuel - 1) as nat);
    let p = sp_ws(s, m);
    if p < s.len() && s[p] == ',' {
        let (rest, _r) = sp_members(s, sp_ws(s, p + 1), (fuel - 1) as nat)->Some_0;
        lemma_parsed_members_one_line(s, sp_ws(s, p + 1), (fuel - 1) as nat);
        lemma_one_line_members_cons((key, v), rest);
    } else {
        lemma_one_line_members_cons((key, v), Seq::empty());
        assert(seq![(key, v)] + Seq::<(Seq<char>, JsonV)>::empty() =~= seq![(key, v)]);
    }
}

/// Law: whatever the parser accepts is a one-line value, so a parsed
/// payload never breaks the request body's one-command-per-line frame.
pub proof fn lemma_parsed_json_one_line(s: Seq<char>)
    requires
        sp_json(s) is Some,
    ensures
        one_line(sp_json(s)->Some_0),
{
    lemma_parsed_value_one_line(s, sp_ws(s, 0), parse_budget(s.len()));
}

} // verus!
