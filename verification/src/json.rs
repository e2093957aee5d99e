use vstd::prelude::*;
use vstd::string::StrSliceExecFns;

verus! {

/// A JSON document held as plain values.
///
/// Numbers are carried as their decimal text and emitted verbatim on
/// serialization, so the crate never computes with floating point; objects
/// keep their members in the order they were built.
#[derive(Debug, PartialEq, Eq)]
pub enum JsonValue {
    Null,
    Bool(bool),
    Num(String),
    Str(String),
    Arr(Vec<JsonValue>),
    Obj(Vec<(String, JsonValue)>),
}

/// The mathematical shape of a `JsonValue`: the same tree over `Seq`.
pub enum SpecJson {
    Null,
    Bool(bool),
    Num(Seq<char>),
    Str(Seq<char>),
    Arr(Seq<SpecJson>),
    Obj(Seq<(Seq<char>, SpecJson)>),
}

pub open spec fn view_json(v: JsonValue) -> SpecJson
    decreases v,
{
    match v {
        JsonValue::Null => SpecJson::Null,
        JsonValue::Bool(b) => SpecJson::Bool(b),
        JsonValue::Num(t) => SpecJson::Num(t@),
        JsonValue::Str(s) => SpecJson::Str(s@),
        JsonValue::Arr(a) => SpecJson::Arr(view_json_seq(a@)),
        JsonValue::Obj(m) => SpecJson::Obj(view_json_members(m@)),
    }
}

pub open spec fn view_json_seq(s: Seq<JsonValue>) -> Seq<SpecJson>
    decreases s,
{
    if s.len() == 0 {
        Seq::empty()
    } else {
        seq![view_json(s[0])] + view_json_seq(s.skip(1))
    }
}

pub open spec fn view_json_members(s: Seq<(String, JsonValue)>) -> Seq<(Seq<char>, SpecJson)>
    decreases s,
{
    if s.len() == 0 {
        Seq::empty()
    } else {
        seq![(s[0].0@, view_json(s[0].1))] + view_json_members(s.skip(1))
    }
}

impl View for JsonValue {
    type V = SpecJson;

    open spec fn view(&self) -> SpecJson {
        view_json(*self)
    }
}

pub proof fn lemma_view_json_seq(s: Seq<JsonValue>)
    ensures
        view_json_seq(s).len() == s.len(),
        forall|i: int| 0 <= i < s.len() ==> view_json_seq(s)[i] == view_json(s[i]),
    decreases s,
{
    if s.len() > 0 {
        lemma_view_json_seq(s.skip(1));
    }
}

pub proof fn lemma_view_json_members(s: Seq<(String, JsonValue)>)
    ensures
        view_json_members(s).len() == s.len(),
        forall|i: int| 0 <= i < s.len() ==> view_json_members(s)[i]
            == (s[i].0@, view_json(s[i].1)),
    decreases s,
{
    if s.len() > 0 {
        lemma_view_json_members(s.skip(1));
    }
}

/// A Unicode control character: the ranges the `char` documentation gives
/// for the control-code category.
pub open spec fn spec_is_control(c: char) -> bool {
    (c as u32) < 32 || (127 <= (c as u32) && (c as u32) <= 159)
}

/// Decides `spec_is_control`, the way `char::is_control` does.
pub fn is_control_char(c: char) -> (r: bool)
    ensures
        r == spec_is_control(c),
{
    let n = c as u32;
    n < 32 || (127 <= n && n <= 159)
}

pub open spec fn spec_hex_digit(n: int) -> char {
    if n == 0 { '0' } else if n == 1 { '1' } else if n == 2 { '2' } else if n == 3 { '3' }
    else if n == 4 { '4' } else if n == 5 { '5' } else if n == 6 { '6' } else if n == 7 { '7' }
    else if n == 8 { '8' } else if n == 9 { '9' } else if n == 10 { 'a' } else if n == 11 { 'b' }
    else if n == 12 { 'c' } else if n == 13 { 'd' } else if n == 14 { 'e' } else { 'f' }
}

fn hex_digit(n: u32) -> (r: char)
    requires
        n < 16,
    ensures
        r == spec_hex_digit(n as int),
{
    if n == 0 { '0' } else if n == 1 { '1' } else if n == 2 { '2' } else if n == 3 { '3' }
    else if n == 4 { '4' } else if n == 5 { '5' } else if n == 6 { '6' } else if n == 7 { '7' }
    else if n == 8 { '8' } else if n == 9 { '9' } else if n == 10 { 'a' } else if n == 11 { 'b' }
    else if n == 12 { 'c' } else if n == 13 { 'd' } else if n == 14 { 'e' } else { 'f' }
}

/// How one character of a JSON string is written between the quotes: a quote
/// or a backslash gets a backslash before it, the common control characters
/// take their two-character short forms, any other control character becomes
/// the six-character `\u00XX` form, and everything else stands as it is.
pub open spec fn spec_escape_char(c: char) -> Seq<char> {
    if c == '"' {
        seq!['\\', '"']
    } else if c == '\\' {
        seq!['\\', '\\']
    } else if c == '\u{8}' {
        seq!['\\', 'b']
    } else if c == '\t' {
        seq!['\\', 't']
    } else if c == '\n' {
        seq!['\\', 'n']
    } else if c == '\u{c}' {
        seq!['\\', 'f']
    } else if c == '\r' {
        seq!['\\', 'r']
    } else if (c as u32) < 32 {
        seq!['\\', 'u', '0', '0', spec_hex_digit((c as u32) as int / 16), spec_hex_digit(
            (c as u32) as int % 16,
        )]
    } else {
        seq![c]
    }
}

/// The body of a JSON string: every character escaped in turn.
pub open spec fn spec_escape(s: Seq<char>) -> Seq<char>
    decreases s,
{
    if s.len() == 0 {
        Seq::empty()
    } else {
        spec_escape_char(s[0]) + spec_escape(s.skip(1))
    }
}

/// A JSON string: the escaped body between two quotes.
pub open spec fn spec_quoted(s: Seq<char>) -> Seq<char> {
    seq!['"'] + spec_escape(s) + seq!['"']
}

pub proof fn lemma_escape_push(s: Seq<char>, c: char)
    ensures
        spec_escape(s.push(c)) == spec_escape(s) + spec_escape_char(c),
    decreases s,
{
    if s.len() == 0 {
        assert(s.push(c).skip(1) =~= s);
        assert(spec_escape(s.push(c)) =~= spec_escape(s) + spec_escape_char(c));
    } else {
        assert(s.push(c).skip(1) =~= s.skip(1).push(c));
        lemma_escape_push(s.skip(1), c);
        assert(spec_escape(s.push(c)) =~= spec_escape(s) + spec_escape_char(c));
    }
}

/// Appends the escape of `c` to `out`.
fn push_escaped(out: &mut Vec<char>, c: char)
    ensures
        final(out)@ == old(out)@ + spec_escape_char(c),
{
    if c == '"' {
        out.push('\\');
        out.push('"');
        assert(final(out)@ =~= old(out)@ + spec_escape_char(c));
    } else if c == '\\' {
        out.push('\\');
        out.push('\\');
        assert(final(out)@ =~= old(out)@ + spec_escape_char(c));
    } else if c == '\u{8}' {
        out.push('\\');
        out.push('b');
        assert(final(out)@ =~= old(out)@ + spec_escape_char(c));
    } else if c == '\t' {
        out.push('\\');
        out.push('t');
        assert(final(out)@ =~= old(out)@ + spec_escape_char(c));
    } else if c == '\n' {
        out.push('\\');
        out.push('n');
        assert(final(out)@ =~= old(out)@ + spec_escape_char(c));
    } else if c == '\u{c}' {
        out.push('\\');
        out.push('f');
        assert(final(out)@ =~= old(out)@ + spec_escape_char(c));
    } else if c == '\r' {
        out.push('\\');
        out.push('r');
        assert(final(out)@ =~= old(out)@ + spec_escape_char(c));
    } else {
        let n = c as u32;
        if n < 32 {
            out.push('\\');
            out.push('u');
            out.push('0');
            out.push('0');
            out.push(hex_digit(n / 16));
            out.push(hex_digit(n % 16));
            assert(final(out)@ =~= old(out)@ + spec_escape_char(c));
        } else {
            out.push(c);
            assert(final(out)@ =~= old(out)@ + spec_escape_char(c));
        }
    }
}

/// The characters of `s`, one by one.
pub fn str_chars(s: &str) -> (r: Vec<char>)
    ensures
        r@ == s@,
{
    let n = s.unicode_len();
    let mut r: Vec<char> = Vec::new();
    let mut i: usize = 0;
    while i < n
        invariant
            n == s@.len(),
            i <= n,
            r@ == s@.take(i as int),
        decreases n - i,
    {
        r.push(s.get_char(i));
        proof {
            assert(s@.take(i + 1 as int) =~= s@.take(i as int).push(s@[i as int]));
        }
        i = i + 1;
    }
    proof {
        assert(s@.take(n as int) =~= s@);
    }
    r
}

/// Relies on `String: FromIterator<char>`: collecting an iterator of
/// characters builds the string of exactly those characters in order.
#[verifier::external_body]
pub fn chars_to_string(v: &Vec<char>) -> (r: String)
    ensures
        r@ == v@,
{
    v.iter().collect()
}

/// The compact JSON text of a document: no spaces, members and elements
/// separated by single commas, strings quoted and escaped, numbers emitted
/// as the text they carry.
pub open spec fn spec_json_text(j: SpecJson) -> Seq<char>
    decreases j,
{
    match j {
        SpecJson::Null => seq!['n', 'u', 'l', 'l'],
        SpecJson::Bool(b) => if b {
            seq!['t', 'r', 'u', 'e']
        } else {
            seq!['f', 'a', 'l', 's', 'e']
        },
        SpecJson::Num(t) => t,
        SpecJson::Str(s) => spec_quoted(s),
        SpecJson::Arr(items) => seq!['['] + spec_json_list(items) + seq![']'],
        SpecJson::Obj(ms) => seq!['{'] + spec_json_members(ms) + seq!['}'],
    }
}

pub open spec fn spec_json_list(items: Seq<SpecJson>) -> Seq<char>
    decreases items,
{
    if items.len() == 0 {
        Seq::empty()
    } else if items.len() == 1 {
        spec_json_text(items[0])
    } else {
        spec_json_text(items[0]) + seq![','] + spec_json_list(items.skip(1))
    }
}

pub open spec fn spec_json_member(m: (Seq<char>, SpecJson)) -> Seq<char>
    decreases m,
{
    spec_quoted(m.0) + seq![':'] + spec_json_text(m.1)
}

pub open spec fn spec_json_members(ms: Seq<(Seq<char>, SpecJson)>) -> Seq<char>
    decreases ms,
{
    if ms.len() == 0 {
        Seq::empty()
    } else if ms.len() == 1 {
        spec_json_member(ms[0])
    } else {
        spec_json_member(ms[0]) + seq![','] + spec_json_members(ms.skip(1))
    }
}

pub proof fn lemma_json_list_push(items: Seq<SpecJson>, j: SpecJson)
    ensures
        spec_json_list(items.push(j)) == (if items.len() == 0 {
            spec_json_text(j)
        } else {
            spec_json_list(items) + seq![','] + spec_json_text(j)
        }),
    decreases items,
{
    if items.len() == 0 {
        assert(items.push(j)[0] == j);
    } else {
        assert(items.push(j).skip(1) =~= items.skip(1).push(j));
        lemma_json_list_push(items.skip(1), j);
        assert(spec_json_list(items.push(j)) =~= spec_json_list(items) + seq![',']
            + spec_json_text(j));
    }
}

pub proof fn lemma_json_members_push(ms: Seq<(Seq<char>, SpecJson)>, m: (Seq<char>, SpecJson))
    ensures
        spec_json_members(ms.push(m)) == (if ms.len() == 0 {
            spec_json_member(m)
        } else {
            spec_json_members(ms) + seq![','] + spec_json_member(m)
        }),
    decreases ms,
{
    if ms.len() == 0 {
        assert(ms.push(m)[0] == m);
    } else {
        assert(ms.push(m).skip(1) =~= ms.skip(1).push(m));
        lemma_json_members_push(ms.skip(1), m);
        assert(spec_json_members(ms.push(m)) =~= spec_json_members(ms) + seq![',']
            + spec_json_member(m));
    }
}

/// Appends the characters of `s` to `out`.
fn append_chars(out: &mut Vec<char>, s: &Vec<char>)
    ensures
        final(out)@ == old(out)@ + s@,
{
    let mut i: usize = 0;
    while i < s.len()
        invariant
            i <= s@.len(),
            out@ == old(out)@ + s@.take(i as int),
        decreases s@.len() - i,
    {
        out.push(s[i]);
        proof {
            assert(s@.take(i + 1 as int) =~= s@.take(i as int).push(s@[i as int]));
        }
        i = i + 1;
    }
    proof {
        assert(s@.take(s@.len() as int) =~= s@);
    }
}

/// Appends the escaped form of every character of `s` to `out`.
fn append_escaped(out: &mut Vec<char>, s: &Vec<char>)
    ensures
        final(out)@ == old(out)@ + spec_escape(s@),
{
    let mut i: usize = 0;
    while i < s.len()
        invariant
            i <= s@.len(),
            out@ == old(out)@ + spec_escape(s@.take(i as int)),
        decreases s@.len() - i,
    {
        push_escaped(out, s[i]);
        proof {
            assert(s@.take(i + 1 as int) =~= s@.take(i as int).push(s@[i as int]));
            lemma_escape_push(s@.take(i as int), s@[i as int]);
        }
        i = i + 1;
    }
    proof {
        assert(s@.take(s@.len() as int) =~= s@);
    }
}

/// Appends `s` as a quoted, escaped JSON string to `out`.
fn append_quoted(out: &mut Vec<char>, s: &str)
    ensures
        final(out)@ == old(out)@ + spec_quoted(s@),
{
    out.push('"');
    let cs = str_chars(s);
    append_escaped(out, &cs);
    out.push('"');
    assert(final(out)@ =~= old(out)@ + spec_quoted(s@));
}

/// Appends the JSON text of `v` to `out`.
#[verifier::loop_isolation(false)]
pub fn append_json(out: &mut Vec<char>, v: &JsonValue)
    ensures
        final(out)@ == old(out)@ + spec_json_text(v@),
    decreases *v,
{
    match v {
        JsonValue::Null => {
            out.push('n');
            out.push('u');
            out.push('l');
            out.push('l');
            assert(final(out)@ =~= old(out)@ + spec_json_text(v@));
        },
        JsonValue::Bool(b) => {
            if *b {
                out.push('t');
                out.push('r');
                out.push('u');
                out.push('e');
            } else {
                out.push('f');
                out.push('a');
                out.push('l');
                out.push('s');
                out.push('e');
            }
            assert(final(out)@ =~= old(out)@ + spec_json_text(v@));
        },
        JsonValue::Num(t) => {
            let cs = str_chars(t.as_str());
            append_chars(out, &cs);
        },
        JsonValue::Str(s) => {
            append_quoted(out, s.as_str());
        },
        JsonValue::Arr(a) => {
            out.push('[');
            let mut i: usize = 0;
            while i < a.len()
                invariant
                    i <= a@.len(),
                    out@ == old(out)@ + seq!['['] + spec_json_list(
                        view_json_seq(a@.take(i as int)),
                    ),
                decreases a@.len() - i,
            {
                if i > 0 {
                    out.push(',');
                }
                proof {
                    assert(decreases_to!(*v => v->Arr_0));
                    assert(decreases_to!(v->Arr_0 => v->Arr_0[i as int]));
                    assert(v->Arr_0[i as int] == a@[i as int]);
                    assert(decreases_to!(*v => a@[i as int]));
                }
                append_json(out, &a[i]);
                proof {
                    lemma_view_json_seq(a@.take(i as int));
                    lemma_view_json_seq(a@.take(i + 1 as int));
                    assert(a@.take(i + 1 as int) =~= a@.take(i as int).push(a@[i as int]));
                    assert(view_json_seq(a@.take(i + 1 as int)) =~= view_json_seq(
                        a@.take(i as int),
                    ).push(view_json(a@[i as int])));
                    lemma_json_list_push(view_json_seq(a@.take(i as int)), view_json(a@[i as int]));
                    assert(out@ =~= old(out)@ + seq!['['] + spec_json_list(
                        view_json_seq(a@.take(i + 1 as int)),
                    ));
                }
                i = i + 1;
            }
            out.push(']');
            proof {
                assert(a@.take(a@.len() as int) =~= a@);
                assert(final(out)@ =~= old(out)@ + spec_json_text(v@));
            }
        },
        JsonValue::Obj(m) => {
            out.push('{');
            let mut i: usize = 0;
            while i < m.len()
                invariant
                    i <= m@.len(),
                    out@ == old(out)@ + seq!['{'] + spec_json_members(
                        view_json_members(m@.take(i as int)),
                    ),
                decreases m@.len() - i,
            {
                if i > 0 {
                    out.push(',');
                }
                append_quoted(out, m[i].0.as_str());
                out.push(':');
                proof {
                    assert(decreases_to!(*v => v->Obj_0));
                    assert(decreases_to!(v->Obj_0 => v->Obj_0[i as int]));
                    assert(decreases_to!(v->Obj_0[i as int] => v->Obj_0[i as int].1));
                    assert(v->Obj_0[i as int].1 == m@[i as int].1);
                    assert(decreases_to!(*v => m@[i as int].1));
                }
                append_json(out, &m[i].1);
                proof {
                    lemma_view_json_members(m@.take(i as int));
                    lemma_view_json_members(m@.take(i + 1 as int));
                    assert(m@.take(i + 1 as int) =~= m@.take(i as int).push(m@[i as int]));
                    assert(view_json_members(m@.take(i + 1 as int)) =~= view_json_members(
                        m@.take(i as int),
                    ).push((m@[i as int].0@, view_json(m@[i as int].1))));
                    lemma_json_members_push(
                        view_json_members(m@.take(i as int)),
                        (m@[i as int].0@, view_json(m@[i as int].1)),
                    );
                    assert(out@ =~= old(out)@ + seq!['{'] + spec_json_members(
                        view_json_members(m@.take(i + 1 as int)),
                    ));
                }
                i = i + 1;
            }
            out.push('}');
            proof {
                assert(m@.take(m@.len() as int) =~= m@);
                assert(final(out)@ =~= old(out)@ + spec_json_text(v@));
            }
        },
    }
}

/// The compact JSON text of `v`, as `spec_json_text` states it.
pub fn json_text(v: &JsonValue) -> (r: String)
    ensures
        r@ == spec_json_text(v@),
{
    let mut out: Vec<char> = Vec::new();
    append_json(&mut out, v);
    proof {
        assert(Seq::<char>::empty() + spec_json_text(v@) =~= spec_json_text(v@));
    }
    chars_to_string(&out)
}

} // verus!
