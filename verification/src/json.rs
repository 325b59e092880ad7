//! The JSON value model for the wire format: requests are serialized to
//! compact JSON text and replies are parsed from it.
//!
//! Numbers are kept as their literal decimal tokens, so no precision is lost
//! and no floating point is involved; typed decoders interpret the token.
use vstd::prelude::*;

verus! {

broadcast use vstd::std_specs::vec::group_vec_axioms, vstd::seq::group_seq_axioms;

/// Mathematical JSON value: the model that contracts speak about.
pub enum JsonV {
    Null,
    Bool(bool),
    /// The number's decimal token, e.g. `-12.5e3`, kept verbatim.
    Num(Seq<char>),
    /// The decoded (unescaped) contents of a string.
    Str(Seq<char>),
    Arr(Seq<JsonV>),
    Obj(Seq<(Seq<char>, JsonV)>),
}

/// Executable JSON value, in one-to-one correspondence with [`JsonV`].
#[derive(Debug)]
pub enum Json {
    Null,
    Bool(bool),
    Num(String),
    Str(String),
    Arr(Vec<Json>),
    Obj(Vec<(String, Json)>),
}

pub open spec fn json_view(j: Json) -> JsonV
    decreases j,
{
    match j {
        Json::Null => JsonV::Null,
        Json::Bool(b) => JsonV::Bool(b),
        Json::Num(s) => JsonV::Num(s@),
        Json::Str(s) => JsonV::Str(s@),
        Json::Arr(v) => JsonV::Arr(jsons_view(v@)),
        Json::Obj(v) => JsonV::Obj(members_view(v@)),
    }
}

/// The view of a sequence of JSON values, element by element.
pub open spec fn jsons_view(v: Seq<Json>) -> Seq<JsonV>
    decreases v,
{
    Seq::new(
        v.len(),
        |i: int|
            if 0 <= i < v.len() {
                json_view(v[i])
            } else {
                JsonV::Null
            },
    )
}

/// The view of a sequence of object members, element by element.
pub open spec fn members_view(v: Seq<(String, Json)>) -> Seq<(Seq<char>, JsonV)>
    decreases v,
{
    Seq::new(
        v.len(),
        |i: int|
            if 0 <= i < v.len() {
                (v[i].0@, json_view(v[i].1))
            } else {
                (Seq::empty(), JsonV::Null)
            },
    )
}

impl View for Json {
    type V = JsonV;

    open spec fn view(&self) -> JsonV {
        json_view(*self)
    }
}

impl DeepView for Json {
    type V = JsonV;

    open spec fn deep_view(&self) -> JsonV {
        json_view(*self)
    }
}

/// No newline among the characters.
pub open spec fn no_nl(s: Seq<char>) -> bool {
    forall|k: int| 0 <= k < s.len() ==> s[k] != '\n'
}

/// A value whose number tokens hold no newline. Everything else a value
/// serializes to stays on one line by construction: string contents are
/// escaped, and the punctuation and literals hold no newline.
pub open spec fn one_line(v: JsonV) -> bool
    decreases v,
{
    match v {
        JsonV::Null => true,
        JsonV::Bool(_) => true,
        JsonV::Num(t) => no_nl(t),
        JsonV::Str(_) => true,
        JsonV::Arr(es) => one_line_elems(es),
        JsonV::Obj(ms) => one_line_members(ms),
    }
}

pub open spec fn one_line_elems(es: Seq<JsonV>) -> bool
    decreases es,
{
    if es.len() == 0 {
        true
    } else {
        one_line(es[0]) && one_line_elems(es.subrange(1, es.len() as int))
    }
}

pub open spec fn one_line_members(ms: Seq<(Seq<char>, JsonV)>) -> bool
    decreases ms,
{
    if ms.len() == 0 {
        true
    } else {
        one_line(ms[0].1) && one_line_members(ms.subrange(1, ms.len() as int))
    }
}

proof fn lemma_esc_char_no_nl(c: char)
    ensures
        no_nl(esc_char(c)),
{
}

proof fn lemma_esc_str_no_nl(s: Seq<char>)
    ensures
        no_nl(esc_str(s)),
    decreases s.len(),
{
    if s.len() > 0 {
        lemma_esc_str_no_nl(s.subrange(0, s.len() - 1));
        lemma_esc_char_no_nl(s[s.len() - 1]);
    }
}

/// Law: serialization keeps to one line. A value whose number tokens hold
/// no newline serializes without one, so each command occupies exactly one
/// line of the request body.
pub proof fn lemma_ser_one_line(v: JsonV)
    requires
        one_line(v),
    ensures
        no_nl(ser_json(v)),
    decreases v,
{
    match v {
        JsonV::Null => {},
        JsonV::Bool(_) => {},
        JsonV::Num(_) => {},
        JsonV::Str(s) => {
            lemma_esc_str_no_nl(s);
        },
        JsonV::Arr(es) => {
            lemma_ser_elems_one_line(es);
        },
        JsonV::Obj(ms) => {
            lemma_ser_members_one_line(ms);
        },
    }
}

proof fn lemma_ser_elems_one_line(es: Seq<JsonV>)
    requires
        one_line_elems(es),
    ensures
        no_nl(ser_elems(es)),
    decreases es,
{
    if es.len() == 0 {
    } else if es.len() == 1 {
        lemma_one_line_elems_index(es, 0);
        lemma_ser_one_line(es[0]);
    } else {
        lemma_one_line_elems_prefix(es);
        lemma_ser_elems_one_line(es.subrange(0, es.len() - 1));
        lemma_one_line_elems_index(es, es.len() - 1);
        lemma_ser_one_line(es[es.len() - 1]);
    }
}

proof fn lemma_ser_member_one_line(m: (Seq<char>, JsonV))
    requires
        one_line(m.1),
    ensures
        no_nl(ser_member(m)),
    decreases m,
{
    lemma_esc_str_no_nl(m.0);
    lemma_ser_one_line(m.1);
    let e = esc_str(m.0);
    let v = ser_json(m.1);
    assert forall|k: int| 0 <= k < ser_member(m).len() implies ser_member(m)[k] != '\n' by {
        let pre = seq!['"'] + e + seq!['"', ':'];
        assert(ser_member(m) =~= pre + v);
        if k < pre.len() {
            if 1 <= k < 1 + e.len() {
                assert(pre[k] == e[k - 1]);
            }
        } else {
            assert(ser_member(m)[k] == v[k - pre.len()]);
        }
    }
}

proof fn lemma_ser_members_one_line(ms: Seq<(Seq<char>, JsonV)>)
    requires
        one_line_members(ms),
    ensures
        no_nl(ser_members(ms)),
    decreases ms,
{
    if ms.len() == 0 {
    } else if ms.len() == 1 {
        lemma_one_line_members_index(ms, 0);
        lemma_ser_member_one_line(ms[0]);
    } else {
        lemma_one_line_members_prefix(ms);
        lemma_ser_members_one_line(ms.subrange(0, ms.len() - 1));
        lemma_one_line_members_index(ms, ms.len() - 1);
        lemma_ser_member_one_line(ms[ms.len() - 1]);
    }
}

/// Each element of a one-line element list is itself one-line.
proof fn lemma_one_line_elems_index(es: Seq<JsonV>, i: int)
    requires
        one_line_elems(es),
        0 <= i < es.len(),
    ensures
        one_line(es[i]),
    decreases es.len(),
{
    if i > 0 {
        lemma_one_line_elems_index(es.subrange(1, es.len() as int), i - 1);
    }
}

proof fn lemma_one_line_elems_prefix(es: Seq<JsonV>)
    requires
        one_line_elems(es),
        es.len() > 0,
    ensures
        one_line_elems(es.subrange(0, es.len() - 1)),
    decreases es.len(),
{
    if es.len() > 1 {
        let tail = es.subrange(1, es.len() as int);
        lemma_one_line_elems_prefix(tail);
        assert(tail.subrange(0, tail.len() - 1) =~= es.subrange(0, es.len() - 1).subrange(
            1,
            es.len() - 1,
        ));
    }
}

/// Each member value of a one-line member list is itself one-line.
proof fn lemma_one_line_members_index(ms: Seq<(Seq<char>, JsonV)>, i: int)
    requires
        one_line_members(ms),
        0 <= i < ms.len(),
    ensures
        one_line(ms[i].1),
    decreases ms.len(),
{
    if i > 0 {
        lemma_one_line_members_index(ms.subrange(1, ms.len() as int), i - 1);
    }
}

proof fn lemma_one_line_members_prefix(ms: Seq<(Seq<char>, JsonV)>)
    requires
        one_line_members(ms),
        ms.len() > 0,
    ensures
        one_line_members(ms.subrange(0, ms.len() - 1)),
    decreases ms.len(),
{
    if ms.len() > 1 {
        let tail = ms.subrange(1, ms.len() as int);
        lemma_one_line_members_prefix(tail);
        assert(tail.subrange(0, tail.len() - 1) =~= ms.subrange(0, ms.len() - 1).subrange(
            1,
            ms.len() - 1,
        ));
    }
}

/// Prepending a one-line value to a one-line list keeps it one-line.
pub proof fn lemma_one_line_elems_cons(v: JsonV, rest: Seq<JsonV>)
    requires
        one_line(v),
        one_line_elems(rest),
    ensures
        one_line_elems(seq![v] + rest),
{
    let whole = seq![v] + rest;
    assert(whole[0] == v);
    assert(whole.subrange(1, whole.len() as int) =~= rest);
}

/// Prepending a member with a one-line value keeps the list one-line.
pub proof fn lemma_one_line_members_cons(m: (Seq<char>, JsonV), rest: Seq<(Seq<char>, JsonV)>)
    requires
        one_line(m.1),
        one_line_members(rest),
    ensures
        one_line_members(seq![m] + rest),
{
    let whole = seq![m] + rest;
    assert(whole[0] == m);
    assert(whole.subrange(1, whole.len() as int) =~= rest);
}

/// Joining two one-line member lists keeps them one-line.
pub proof fn lemma_one_line_members_app(a: Seq<(Seq<char>, JsonV)>, b: Seq<(Seq<char>, JsonV)>)
    requires
        one_line_members(a),
        one_line_members(b),
    ensures
        one_line_members(a + b),
    decreases a.len(),
{
    if a.len() == 0 {
        assert(a + b =~= b);
    } else {
        let whole = a + b;
        assert(whole[0] == a[0]);
        assert(a.subrange(1, a.len() as int) + b =~= whole.subrange(1, whole.len() as int));
        lemma_one_line_members_app(a.subrange(1, a.len() as int), b);
    }
}

/// A list is one-line when each of its elements is.
pub proof fn lemma_one_line_elems_all(es: Seq<JsonV>)
    requires
        forall|k: int| 0 <= k < es.len() ==> one_line(#[trigger] es[k]),
    ensures
        one_line_elems(es),
    decreases es.len(),
{
    if es.len() > 0 {
        lemma_one_line_elems_all(es.subrange(1, es.len() as int));
    }
}

/// A list of members is one-line when each member's value is.
pub proof fn lemma_one_line_members_all(ms: Seq<(Seq<char>, JsonV)>)
    requires
        forall|k: int| 0 <= k < ms.len() ==> one_line((#[trigger] ms[k]).1),
    ensures
        one_line_members(ms),
    decreases ms.len(),
{
    if ms.len() > 0 {
        lemma_one_line_members_all(ms.subrange(1, ms.len() as int));
    }
}

/// Decides whether a value is one-line: true exactly when every number
/// token it holds is free of newlines.
pub fn is_one_line(j: &Json) -> (r: bool)
    ensures
        r == one_line(j@),
    decreases *j,
{
    match j {
        Json::Null => true,
        Json::Bool(_) => true,
        Json::Num(t) => {
            let n = t.as_str().unicode_len();
            let mut i: usize = 0;
            while i < n
                invariant
                    *j == Json::Num(*t),
                    n == t@.len(),
                    i <= n,
                    forall|k: int| 0 <= k < i ==> t@[k] != '\n',
                decreases n - i,
            {
                if t.as_str().get_char(i) == '\n' {
                    proof {
                        assert(t@[i as int] == '\n');
                        assert(!no_nl(t@));
                    }
                    return false;
                }
                i += 1;
            }
            true
        },
        Json::Str(_) => true,
        Json::Arr(es) => {
            let n = es.len();
            let mut i: usize = 0;
            while i < n
                invariant
                    *j == Json::Arr(*es),
                    n == es@.len(),
                    i <= n,
                    forall|k: int| 0 <= k < i ==> one_line(#[trigger] jsons_view(es@)[k]),
                decreases n - i,
            {
                proof {
                    assert(decreases_to!(*j => j->Arr_0));
                    assert(decreases_to!(*es => es[i as int]));
                    assert(decreases_to!(*j => es[i as int]));
                }
                if !is_one_line(&es[i]) {
                    proof {
                        assert(jsons_view(es@)[i as int] == es@[i as int]@);
                        if one_line_elems(jsons_view(es@)) {
                            lemma_one_line_elems_index(jsons_view(es@), i as int);
                        }
                    }
                    return false;
                }
                proof {
                    assert(jsons_view(es@)[i as int] == es@[i as int]@);
                }
                i += 1;
            }
            proof {
                lemma_one_line_elems_all(jsons_view(es@));
            }
            true
        },
        Json::Obj(ms) => {
            let n = ms.len();
            let mut i: usize = 0;
            while i < n
                invariant
                    *j == Json::Obj(*ms),
                    n == ms@.len(),
                    i <= n,
                    forall|k: int| 0 <= k < i ==> one_line((#[trigger] members_view(ms@)[k]).1),
                decreases n - i,
            {
                proof {
                    assert(decreases_to!(*j => j->Obj_0));
                    assert(decreases_to!(*ms => ms[i as int]));
                    assert(decreases_to!(ms[i as int] => ms[i as int].1));
                    assert(decreases_to!(*j => ms[i as int].1));
                }
                if !is_one_line(&ms[i].1) {
                    proof {
                        assert(members_view(ms@)[i as int] == (ms@[i as int].0@, ms@[i as int].1@));
                        if one_line_members(members_view(ms@)) {
                            lemma_one_line_members_index(members_view(ms@), i as int);
                        }
                    }
                    return false;
                }
                proof {
                    assert(members_view(ms@)[i as int] == (ms@[i as int].0@, ms@[i as int].1@));
                }
                i += 1;
            }
            proof {
                lemma_one_line_members_all(members_view(ms@));
            }
            true
        },
    }
}

/// Structural copy of a JSON value, proved to have the same view.
pub fn json_clone(j: &Json) -> (r: Json)
    ensures
        r@ == j@,
    decreases *j,
{
    match j {
        Json::Null => Json::Null,
        Json::Bool(b) => Json::Bool(*b),
        Json::Num(s) => Json::Num(s.clone()),
        Json::Str(s) => Json::Str(s.clone()),
        Json::Arr(es) => {
            let n = es.len();
            let mut out: Vec<Json> = Vec::new();
            let mut i: usize = 0;
            while i < n
                invariant
                    *j == Json::Arr(*es),
                    n == es@.len(),
                    i <= n,
                    out@.len() == i,
                    forall|k: int| 0 <= k < i ==> out@[k]@ == es@[k]@,
                decreases n - i,
            {
                proof {
                    assert(decreases_to!(*j => j->Arr_0));
                    assert(decreases_to!(*es => es[i as int]));
                    assert(decreases_to!(*j => es[i as int]));
                }
                let c = json_clone(&es[i]);
                out.push(c);
                i += 1;
            }
            proof {
                assert(jsons_view(out@) =~= jsons_view(es@));
            }
            Json::Arr(out)
        },
        Json::Obj(ms) => {
            let n = ms.len();
            let mut out: Vec<(String, Json)> = Vec::new();
            let mut i: usize = 0;
            while i < n
                invariant
                    *j == Json::Obj(*ms),
                    n == ms@.len(),
                    i <= n,
                    out@.len() == i,
                    forall|k: int| 0 <= k < i ==> out@[k].0@ == ms@[k].0@ && out@[k].1@
                        == ms@[k].1@,
                decreases n - i,
            {
                proof {
                    assert(decreases_to!(*j => j->Obj_0));
                    assert(decreases_to!(*ms => ms[i as int]));
                    assert(decreases_to!(ms[i as int] => ms[i as int].1));
                    assert(decreases_to!(*j => ms[i as int].1));
                }
                let key = ms[i].0.clone();
                let val = json_clone(&ms[i].1);
                out.push((key, val));
                i += 1;
            }
            proof {
                assert(members_view(out@) =~= members_view(ms@));
            }
            Json::Obj(out)
        },
    }
}

/// The lower-case hexadecimal digit for a value below sixteen.
pub open spec fn hex_digit(n: int) -> char {
    if n == 0 {
        '0'
    } else if n == 1 {
        '1'
    } else if n == 2 {
        '2'
    } else if n == 3 {
        '3'
    } else if n == 4 {
        '4'
    } else if n == 5 {
        '5'
    } else if n == 6 {
        '6'
    } else if n == 7 {
        '7'
    } else if n == 8 {
        '8'
    } else if n == 9 {
        '9'
    } else if n == 10 {
        'a'
    } else if n == 11 {
        'b'
    } else if n == 12 {
        'c'
    } else if n == 13 {
        'd'
    } else if n == 14 {
        'e'
    } else {
        'f'
    }
}

/// How one character of a string's contents appears on the wire.
pub open spec fn esc_char(c: char) -> Seq<char> {
    if c == '"' {
        seq!['\\', '"']
    } else if c == '\\' {
        seq!['\\', '\\']
    } else if c == '\n' {
        seq!['\\', 'n']
    } else if c == '\r' {
        seq!['\\', 'r']
    } else if c == '\t' {
        seq!['\\', 't']
    } else if (c as u32) < 0x20 {
        seq!['\\', 'u', '0', '0', hex_digit(c as u32 as int / 16), hex_digit(c as u32 as int % 16)]
    } else {
        seq![c]
    }
}

/// The escaped form of a whole string's contents (without the quotes).
pub open spec fn esc_str(s: Seq<char>) -> Seq<char>
    decreases s.len(),
{
    if s.len() == 0 {
        Seq::empty()
    } else {
        esc_str(s.subrange(0, s.len() - 1)) + esc_char(s[s.len() - 1])
    }
}

/// Compact serialization of a JSON value: the canonical wire text.
pub open spec fn ser_json(j: JsonV) -> Seq<char>
    decreases j,
{
    match j {
        JsonV::Null => seq!['n', 'u', 'l', 'l'],
        JsonV::Bool(b) => if b {
            seq!['t', 'r', 'u', 'e']
        } else {
            seq!['f', 'a', 'l', 's', 'e']
        },
        JsonV::Num(s) => s,
        JsonV::Str(s) => seq!['"'] + esc_str(s) + seq!['"'],
        JsonV::Arr(es) => seq!['['] + ser_elems(es) + seq![']'],
        JsonV::Obj(ms) => seq!['{'] + ser_members(ms) + seq!['}'],
    }
}

/// Comma-joined serialization of array elements.
pub open spec fn ser_elems(es: Seq<JsonV>) -> Seq<char>
    decreases es,
{
    if es.len() == 0 {
        Seq::empty()
    } else if es.len() == 1 {
        ser_json(es[0])
    } else {
        ser_elems(es.subrange(0, es.len() - 1)) + seq![','] + ser_json(es[es.len() - 1])
    }
}

/// Comma-joined serialization of object members, each as `"key":value`.
pub open spec fn ser_members(ms: Seq<(Seq<char>, JsonV)>) -> Seq<char>
    decreases ms,
{
    if ms.len() == 0 {
        Seq::empty()
    } else if ms.len() == 1 {
        ser_member(ms[0])
    } else {
        ser_members(ms.subrange(0, ms.len() - 1)) + seq![','] + ser_member(ms[ms.len() - 1])
    }
}

/// One object member on the wire.
pub open spec fn ser_member(m: (Seq<char>, JsonV)) -> Seq<char>
    decreases m,
{
    seq!['"'] + esc_str(m.0) + seq!['"', ':'] + ser_json(m.1)
}

/// The lower-case hexadecimal digit character for `n`.
pub(crate) fn hex_digit_char(n: u32) -> (r: char)
    requires
        n < 16,
    ensures
        r == hex_digit(n as int),
{
    if n == 0 {
        '0'
    } else if n == 1 {
        '1'
    } else if n == 2 {
        '2'
    } else if n == 3 {
        '3'
    } else if n == 4 {
        '4'
    } else if n == 5 {
        '5'
    } else if n == 6 {
        '6'
    } else if n == 7 {
        '7'
    } else if n == 8 {
        '8'
    } else if n == 9 {
        '9'
    } else if n == 10 {
        'a'
    } else if n == 11 {
        'b'
    } else if n == 12 {
        'c'
    } else if n == 13 {
        'd'
    } else if n == 14 {
        'e'
    } else {
        'f'
    }
}

/// Appends the escaped form of one content character.
fn write_escaped_char(c: char, out: &mut Vec<char>)
    ensures
        final(out)@ == old(out)@ + esc_char(c),
{
    if c == '"' {
        out.push('\\');
        out.push('"');
    } else if c == '\\' {
        out.push('\\');
        out.push('\\');
    } else if c == '\n' {
        out.push('\\');
        out.push('n');
    } else if c == '\r' {
        out.push('\\');
        out.push('r');
    } else if c == '\t' {
        out.push('\\');
        out.push('t');
    } else if (c as u32) < 0x20 {
        let n = c as u32;
        out.push('\\');
        out.push('u');
        out.push('0');
        out.push('0');
        out.push(hex_digit_char(n / 16));
        out.push(hex_digit_char(n % 16));
    } else {
        out.push(c);
    }
    proof {
        assert(out@ =~= old(out)@ + esc_char(c));
    }
}

/// Appends the escaped form of a whole string's contents.
fn write_escaped_str(s: &str, out: &mut Vec<char>)
    ensures
        final(out)@ == old(out)@ + esc_str(s@),
{
    let n = s.unicode_len();
    let mut i: usize = 0;
    proof {
        assert(s@.subrange(0, 0) =~= Seq::<char>::empty());
        assert(out@ =~= out@ + esc_str(s@.subrange(0, 0)));
    }
    while i < n
        invariant
            n == s@.len(),
            i <= n,
            out@ == old(out)@ + esc_str(s@.subrange(0, i as int)),
        decreases n - i,
    {
        let c = s.get_char(i);
        write_escaped_char(c, out);
        proof {
            let pre = s@.subrange(0, i as int);
            let cur = s@.subrange(0, i + 1 as int);
            assert(cur.subrange(0, cur.len() - 1) =~= pre);
            assert(cur[cur.len() - 1] == s@[i as int]);
            assert(out@ =~= old(out)@ + esc_str(cur));
        }
        i += 1;
    }
    proof {
        assert(s@.subrange(0, n as int) =~= s@);
    }
}

/// Appends the serialization of a JSON value.
pub fn write_json(j: &Json, out: &mut Vec<char>)
    ensures
        final(out)@ == old(out)@ + ser_json(j@),
    decreases *j,
{
    match j {
        Json::Null => {
            out.push('n');
            out.push('u');
            out.push('l');
            out.push('l');
            proof {
                assert(out@ =~= old(out)@ + ser_json(j@));
            }
        },
        Json::Bool(b) => {
            if *b {
                out.push('t');
                out.push('r');
                out.push('u');
                out.push('e');
            } else {
                out.push('f');
                out.push('a');
                out.push('l');
                out.push('s');
                out.push('e');
            }
            proof {
                assert(out@ =~= old(out)@ + ser_json(j@));
            }
        },
        Json::Num(s) => {
            let n = s.as_str().unicode_len();
            let mut i: usize = 0;
            proof {
                assert(out@ =~= out@ + s@.subrange(0, 0));
            }
            while i < n
                invariant
                    n == s@.len(),
                    i <= n,
                    out@ == old(out)@ + s@.subrange(0, i as int),
                decreases n - i,
            {
                out.push(s.as_str().get_char(i));
                proof {
                    assert(out@ =~= old(out)@ + s@.subrange(0, i + 1 as int));
                }
                i += 1;
            }
            proof {
                assert(s@.subrange(0, n as int) =~= s@);
            }
        },
        Json::Str(s) => {
            out.push('"');
            write_escaped_str(s.as_str(), out);
            out.push('"');
            proof {
                assert(out@ =~= old(out)@ + ser_json(j@));
            }
        },
        Json::Arr(es) => {
            let ghost esv = j@->Arr_0;
            out.push('[');
            let n = es.len();
            let mut i: usize = 0;
            proof {
                assert(esv =~= Seq::new(es@.len(), |k: int| if 0 <= k < es@.len() {
                    json_view(es@[k])
                } else {
                    JsonV::Null
                }));
                assert(ser_elems(esv.subrange(0, 0)) =~= Seq::<char>::empty());
                assert(out@ =~= old(out)@ + seq!['['] + ser_elems(esv.subrange(0, 0)));
            }
            while i < n
                invariant
                    *j == Json::Arr(*es),
                    n == es@.len(),
                    n == esv.len(),
                    i <= n,
                    forall|k: int| 0 <= k < n ==> esv[k] == json_view(es@[k]),
                    out@ == old(out)@ + seq!['['] + ser_elems(esv.subrange(0, i as int)),
                decreases n - i,
            {
                if i > 0 {
                    out.push(',');
                }
                proof {
                    assert(*j == Json::Arr(*es));
                    assert(decreases_to!(*j => j->Arr_0));
                    assert(decreases_to!(*es => es[i as int]));
                    assert(decreases_to!(*j => es[i as int]));
                }
                write_json(&es[i], out);
                proof {
                    let pre = esv.subrange(0, i as int);
                    let cur = esv.subrange(0, i + 1 as int);
                    assert(cur.subrange(0, cur.len() - 1) =~= pre);
                    assert(cur[cur.len() - 1] == esv[i as int]);
                    assert(out@ =~= old(out)@ + seq!['['] + ser_elems(cur));
                }
                i += 1;
            }
            out.push(']');
            proof {
                assert(esv.subrange(0, n as int) =~= esv);
                assert(out@ =~= old(out)@ + ser_json(j@));
            }
        },
        Json::Obj(ms) => {
            let ghost msv = j@->Obj_0;
            out.push('{');
            let n = ms.len();
            let mut i: usize = 0;
            proof {
                assert(msv =~= Seq::new(ms@.len(), |k: int| if 0 <= k < ms@.len() {
                    (ms@[k].0@, json_view(ms@[k].1))
                } else {
                    (Seq::empty(), JsonV::Null)
                }));
                assert(ser_members(msv.subrange(0, 0)) =~= Seq::<char>::empty());
                assert(out@ =~= old(out)@ + seq!['{'] + ser_members(msv.subrange(0, 0)));
            }
            while i < n
                invariant
                    *j == Json::Obj(*ms),
                    n == ms@.len(),
                    n == msv.len(),
                    i <= n,
                    forall|k: int| 0 <= k < n ==> msv[k] == (ms@[k].0@, json_view(ms@[k].1)),
                    out@ == old(out)@ + seq!['{'] + ser_members(msv.subrange(0, i as int)),
                decreases n - i,
            {
                if i > 0 {
                    out.push(',');
                }
                out.push('"');
                write_escaped_str(ms[i].0.as_str(), out);
                out.push('"');
                out.push(':');
                proof {
                    assert(*j == Json::Obj(*ms));
                    assert(decreases_to!(*j => j->Obj_0));
                    assert(decreases_to!(*ms => ms[i as int]));
                    assert(decreases_to!(ms[i as int] => ms[i as int].1));
                    assert(decreases_to!(*j => ms[i as int].1));
                }
                write_json(&ms[i].1, out);
                proof {
                    let pre = msv.subrange(0, i as int);
                    let cur = msv.subrange(0, (i + 1) as int);
                    assert(cur.subrange(0, cur.len() - 1) =~= pre);
                    assert(cur[cur.len() - 1] == msv[i as int]);
                    assert(msv[i as int].0 == ms@[i as int].0@);
                    assert(msv[i as int].1 == json_view(ms@[i as int].1));
                    assert(ser_member(msv[i as int]) =~= seq!['"'] + esc_str(ms@[i as int].0@)
                        + seq!['"', ':'] + ser_json(json_view(ms@[i as int].1)));
                    assert(out@ =~= old(out)@ + seq!['{'] + ser_members(cur));
                }
                i += 1;
            }
            out.push('}');
            proof {
                assert(msv.subrange(0, n as int) =~= msv);
                assert(out@ =~= old(out)@ + ser_json(j@));
            }
        },
    }
}

/// Serializes a JSON value to its compact wire text.
pub fn json_to_string(j: &Json) -> (r: String)
    ensures
        r@ == ser_json(j@),
{
    let mut out: Vec<char> = Vec::new();
    write_json(j, &mut out);
    crate::text::chars_to_string(&out)
}

} // verus!
