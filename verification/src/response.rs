use vstd::prelude::*;
use vstd::string::StrSliceExecFns;
use vstd::string::StringExecFns;

use crate::error::OpenRouterError;
use crate::json::{
    chars_to_string, is_control_char, json_text, lemma_view_json_members, lemma_view_json_seq,
    spec_escape, spec_escape_char, spec_is_control, spec_json_text, spec_quoted, str_chars,
    view_json, view_json_members, JsonValue, SpecJson,
};

verus! {

/// The first value bound to `key` in an object's member list.
pub open spec fn spec_obj_get(ms: Seq<(Seq<char>, SpecJson)>, key: Seq<char>) -> Option<SpecJson>
    decreases ms.len(),
{
    if ms.len() == 0 {
        None
    } else if ms[0].0 == key {
        Some(ms[0].1)
    } else {
        spec_obj_get(ms.skip(1), key)
    }
}

/// The value the extraction path selects out of a reply envelope: the
/// `"content"` of the `"message"` of the first element of `"choices"`.
pub open spec fn spec_extract(envelope: Seq<(Seq<char>, SpecJson)>) -> Option<SpecJson> {
    match spec_obj_get(envelope, "choices"@) {
        Some(choices) => match choices {
            SpecJson::Arr(items) => if items.len() == 0 {
                None
            } else {
                match items[0] {
                    SpecJson::Obj(choice) => match spec_obj_get(choice, "message"@) {
                        Some(message) => match message {
                            SpecJson::Obj(fields) => spec_obj_get(fields, "content"@),
                            _ => None,
                        },
                        _ => None,
                    },
                    _ => None,
                }
            },
            _ => None,
        },
        None => None,
    }
}

/// A string that both begins and ends with a quote character.
pub open spec fn spec_quote_delimited(s: Seq<char>) -> bool {
    s.len() >= 2 && s[0] == '"' && s[s.len() - 1] == '"'
}

/// One pair of quotes removed from the two ends, where both stand.
pub open spec fn spec_strip_outer_quotes(s: Seq<char>) -> Seq<char> {
    if spec_quote_delimited(s) {
        s.subrange(1, s.len() - 1)
    } else {
        s
    }
}

/// The string with every control character removed.
pub open spec fn spec_remove_controls(s: Seq<char>) -> Seq<char>
    decreases s,
{
    if s.len() == 0 {
        Seq::empty()
    } else {
        (if spec_is_control(s[0]) {
            Seq::empty()
        } else {
            seq![s[0]]
        }) + spec_remove_controls(s.skip(1))
    }
}

/// Every escaped quote `\"` turned into a plain quote, left to right and
/// without overlap.
pub open spec fn spec_unescape_quotes(s: Seq<char>) -> Seq<char>
    decreases s.len(),
{
    if s.len() >= 2 && s[0] == '\\' && s[1] == '"' {
        seq!['"'] + spec_unescape_quotes(s.skip(2))
    } else if s.len() > 0 {
        seq![s[0]] + spec_unescape_quotes(s.skip(1))
    } else {
        Seq::empty()
    }
}

/// The post-processing of an extracted value's JSON text: the serializer's
/// outer quote pair removed, control characters stripped, escaped quotes
/// unescaped, and, where the content itself still carries a surrounding
/// quote pair of its own, that pair removed as well. So a content string
/// comes back without any quotes around it, while quotes inside it stay.
pub open spec fn spec_cleaned(s: Seq<char>) -> Seq<char> {
    spec_strip_outer_quotes(
        spec_unescape_quotes(spec_remove_controls(spec_strip_outer_quotes(s))),
    )
}

/// All leading occurrences of `c` removed.
pub open spec fn spec_drop_leading(s: Seq<char>, c: char) -> Seq<char>
    decreases s.len(),
{
    if s.len() > 0 && s[0] == c {
        spec_drop_leading(s.skip(1), c)
    } else {
        s
    }
}

/// All trailing occurrences of `c` removed.
pub open spec fn spec_drop_trailing(s: Seq<char>, c: char) -> Seq<char>
    decreases s.len(),
{
    if s.len() > 0 && s[s.len() - 1] == c {
        spec_drop_trailing(s.take(s.len() - 1), c)
    } else {
        s
    }
}

/// All occurrences of `c` removed from both ends.
pub open spec fn spec_trim_matches(s: Seq<char>, c: char) -> Seq<char> {
    spec_drop_trailing(spec_drop_leading(s, c), c)
}

/// What `clean_string` returns: the string trimmed of `c` at both ends,
/// with every control character removed from what is left.
pub open spec fn spec_clean_string(s: Seq<char>, c: char) -> Seq<char> {
    spec_remove_controls(spec_trim_matches(s, c))
}

pub proof fn lemma_remove_controls_push(s: Seq<char>, c: char)
    ensures
        spec_remove_controls(s.push(c)) == spec_remove_controls(s) + (if spec_is_control(c) {
            Seq::<char>::empty()
        } else {
            seq![c]
        }),
    decreases s,
{
    if s.len() == 0 {
        assert(s.push(c).skip(1) =~= s);
        assert(spec_remove_controls(s.push(c)) =~= spec_remove_controls(s) + (
        if spec_is_control(c) {
            Seq::<char>::empty()
        } else {
            seq![c]
        }));
    } else {
        assert(s.push(c).skip(1) =~= s.skip(1).push(c));
        lemma_remove_controls_push(s.skip(1), c);
        assert(spec_remove_controls(s.push(c)) =~= spec_remove_controls(s) + (
        if spec_is_control(c) {
            Seq::<char>::empty()
        } else {
            seq![c]
        }));
    }
}

/// Removes every control character of `s`, in order.
#[verifier::loop_isolation(false)]
fn remove_controls(s: &Vec<char>) -> (r: Vec<char>)
    ensures
        r@ == spec_remove_controls(s@),
{
    let mut r: Vec<char> = Vec::new();
    let mut i: usize = 0;
    while i < s.len()
        invariant
            i <= s@.len(),
            r@ == spec_remove_controls(s@.take(i as int)),
        decreases s@.len() - i,
    {
        if !is_control_char(s[i]) {
            r.push(s[i]);
        }
        proof {
            assert(s@.take(i + 1 as int) =~= s@.take(i as int).push(s@[i as int]));
            lemma_remove_controls_push(s@.take(i as int), s@[i as int]);
        }
        i = i + 1;
    }
    proof {
        assert(s@.take(s@.len() as int) =~= s@);
    }
    r
}

/// Turns every `\"` of `s` into `"`, left to right.
#[verifier::loop_isolation(false)]
fn unescape_quotes(s: &Vec<char>) -> (r: Vec<char>)
    ensures
        r@ == spec_unescape_quotes(s@),
{
    let mut r: Vec<char> = Vec::new();
    let mut i: usize = 0;
    proof {
        assert(s@.skip(0) =~= s@);
        assert(Seq::<char>::empty() + spec_unescape_quotes(s@) =~= spec_unescape_quotes(s@));
    }
    while i < s.len()
        invariant
            i <= s@.len(),
            spec_unescape_quotes(s@) == r@ + spec_unescape_quotes(s@.skip(i as int)),
        decreases s@.len() - i,
    {
        if i + 1 < s.len() && s[i] == '\\' && s[i + 1] == '"' {
            r.push('"');
            proof {
                assert(s@.skip(i as int).skip(2) =~= s@.skip(i + 2 as int));
                assert(spec_unescape_quotes(s@.skip(i as int)) =~= seq!['"']
                    + spec_unescape_quotes(s@.skip(i + 2 as int)));
            }
            i = i + 2;
        } else {
            r.push(s[i]);
            proof {
                assert(s@.skip(i as int).skip(1) =~= s@.skip(i + 1 as int));
                assert(spec_unescape_quotes(s@.skip(i as int)) =~= seq![s@[i as int]]
                    + spec_unescape_quotes(s@.skip(i + 1 as int)));
            }
            i = i + 1;
        }
    }
    proof {
        assert(s@.skip(s@.len() as int) =~= Seq::<char>::empty());
        assert(spec_unescape_quotes(s@) =~= r@);
    }
    r
}

/// Removes one pair of quotes from the two ends of `s`, where both stand.
#[verifier::loop_isolation(false)]
fn strip_outer_quotes(s: &Vec<char>) -> (r: Vec<char>)
    ensures
        r@ == spec_strip_outer_quotes(s@),
{
    let n = s.len();
    let mut stripped: Vec<char> = Vec::new();
    let mut i: usize = 0;
    let mut end: usize = n;
    if n >= 2 && s[0] == '"' && s[n - 1] == '"' {
        i = 1;
        end = n - 1;
    }
    let ghost lo = i as int;
    while i < end
        invariant
            lo <= i as int <= end <= s@.len(),
            stripped@ == s@.subrange(lo, i as int),
        decreases end - i,
    {
        stripped.push(s[i]);
        proof {
            assert(s@.subrange(lo, i + 1 as int) =~= s@.subrange(lo, i as int).push(
                s@[i as int],
            ));
        }
        i = i + 1;
    }
    proof {
        assert(stripped@ =~= spec_strip_outer_quotes(s@));
    }
    stripped
}

/// The post-processing of an extracted value's serialized text, as
/// `spec_cleaned` states it.
fn clean_text(s: &Vec<char>) -> (r: Vec<char>)
    ensures
        r@ == spec_cleaned(s@),
{
    let stripped = strip_outer_quotes(s);
    let no_controls = remove_controls(&stripped);
    let unescaped = unescape_quotes(&no_controls);
    strip_outer_quotes(&unescaped)
}

/// The string trimmed of `c` at both ends, with every control character
/// removed from what is left.
#[verifier::loop_isolation(false)]
pub fn clean_string(s: &str, c: char) -> (r: String)
    ensures
        r@ == spec_clean_string(s@, c),
{
    let cs = str_chars(s);
    let n = cs.len();
    let mut start: usize = 0;
    proof {
        assert(s@.skip(0) =~= s@);
    }
    while start < n && cs[start] == c
        invariant
            start <= n,
            n == s@.len(),
            spec_drop_leading(s@, c) == spec_drop_leading(s@.skip(start as int), c),
        decreases n - start,
    {
        proof {
            assert(s@.skip(start as int).skip(1) =~= s@.skip(start + 1 as int));
        }
        start = start + 1;
    }
    proof {
        assert(spec_drop_leading(s@.skip(start as int), c) == s@.skip(start as int));
    }
    let mut end: usize = n;
    while end > start && cs[end - 1] == c
        invariant
            start <= end <= n,
            spec_drop_trailing(s@.skip(start as int), c) == spec_drop_trailing(
                s@.subrange(start as int, end as int),
                c,
            ),
        decreases end,
    {
        proof {
            assert(s@.subrange(start as int, end as int).take(end - start - 1) =~= s@.subrange(
                start as int,
                end - 1 as int,
            ));
        }
        end = end - 1;
    }
    proof {
        assert(spec_drop_trailing(s@.subrange(start as int, end as int), c) == s@.subrange(
            start as int,
            end as int,
        ));
        assert(spec_trim_matches(s@, c) == s@.subrange(start as int, end as int));
    }
    let mut r: Vec<char> = Vec::new();
    let mut i: usize = start;
    while i < end
        invariant
            start <= i <= end,
            r@ == spec_remove_controls(s@.subrange(start as int, i as int)),
        decreases end - i,
    {
        if !is_control_char(cs[i]) {
            r.push(cs[i]);
        }
        proof {
            assert(s@.subrange(start as int, i + 1 as int) =~= s@.subrange(
                start as int,
                i as int,
            ).push(s@[i as int]));
            lemma_remove_controls_push(s@.subrange(start as int, i as int), s@[i as int]);
        }
        i = i + 1;
    }
    chars_to_string(&r)
}

/// Ordinary text: no control character and no backslash anywhere in it.
pub open spec fn spec_plain_text(s: Seq<char>) -> bool {
    forall|i: int| 0 <= i < s.len() ==> !spec_is_control(s[i]) && s[i] != '\\'
}

proof fn lemma_remove_controls_concat(a: Seq<char>, b: Seq<char>)
    ensures
        spec_remove_controls(a + b) == spec_remove_controls(a) + spec_remove_controls(b),
    decreases a.len(),
{
    if a.len() == 0 {
        assert(a + b =~= b);
        assert(spec_remove_controls(a) + spec_remove_controls(b) =~= spec_remove_controls(b));
    } else {
        assert((a + b).skip(1) =~= a.skip(1) + b);
        lemma_remove_controls_concat(a.skip(1), b);
        assert(spec_remove_controls(a + b) =~= spec_remove_controls(a) + spec_remove_controls(
            b,
        ));
    }
}

proof fn lemma_remove_controls_of_escape(s: Seq<char>)
    requires
        forall|i: int| 0 <= i < s.len() ==> !spec_is_control(s[i]),
    ensures
        spec_remove_controls(spec_escape(s)) == spec_escape(s),
    decreases s.len(),
{
    if s.len() == 0 {
        assert(spec_remove_controls(spec_escape(s)) =~= spec_escape(s));
    } else {
        let c = s[0];
        lemma_remove_controls_concat(spec_escape_char(c), spec_escape(s.skip(1)));
        lemma_remove_controls_of_escape(s.skip(1));
        reveal_with_fuel(spec_remove_controls, 4);
        if c == '"' || c == '\\' {
            assert(spec_escape_char(c).skip(1) =~= seq![spec_escape_char(c)[1]]);
            assert(seq![spec_escape_char(c)[1]].skip(1) =~= Seq::<char>::empty());
            assert(spec_remove_controls(spec_escape_char(c)) =~= spec_escape_char(c));
        } else {
            assert(spec_escape_char(c) =~= seq![c]);
            assert(seq![c].skip(1) =~= Seq::<char>::empty());
            assert(spec_remove_controls(spec_escape_char(c)) =~= spec_escape_char(c));
        }
        assert(spec_remove_controls(spec_escape(s)) =~= spec_escape(s));
    }
}

proof fn lemma_unescape_of_escape(s: Seq<char>)
    requires
        spec_plain_text(s),
    ensures
        spec_unescape_quotes(spec_escape(s)) == s,
    decreases s.len(),
{
    if s.len() == 0 {
        assert(spec_unescape_quotes(spec_escape(s)) =~= s);
    } else {
        let c = s[0];
        let t = spec_escape(s);
        lemma_unescape_of_escape(s.skip(1));
        if c == '"' {
            assert(spec_escape_char(c) == seq!['\\', '"']);
            assert(t[0] == '\\' && t[1] == '"');
            assert(t.skip(2) =~= spec_escape(s.skip(1)));
            assert(s =~= seq!['"'] + s.skip(1));
            assert(spec_unescape_quotes(t) =~= s);
        } else {
            assert(spec_escape_char(c) == seq![c]);
            assert(t[0] == c);
            assert(t.skip(1) =~= spec_escape(s.skip(1)));
            assert(s =~= seq![c] + s.skip(1));
            assert(spec_unescape_quotes(t) =~= s);
        }
    }
}

/// Law: extraction inverts serialization on ordinary text. For every
/// content string without control characters and without backslashes that
/// is not itself wrapped in quotes, the cleaned JSON text of that string
/// is the string itself: the quotes the serializer adds are exactly what
/// the cleaning removes. A string that both begins and ends with a quote
/// loses that surrounding pair too, so it stands outside this law.
pub proof fn lemma_clean_undoes_quoting(s: Seq<char>)
    requires
        spec_plain_text(s),
        !spec_quote_delimited(s),
    ensures
        spec_cleaned(spec_quoted(s)) == s,
{
    let q = spec_quoted(s);
    assert(spec_json_text(SpecJson::Str(s)) == q);
    assert(q[0] == '"');
    assert(q[q.len() - 1] == '"');
    assert(spec_strip_outer_quotes(q) =~= spec_escape(s));
    lemma_remove_controls_of_escape(s);
    lemma_unescape_of_escape(s);
    assert(spec_strip_outer_quotes(s) == s);
}

/// The first value bound to `key` in `entries`, by the same first-match
/// rule as `spec_obj_get`.
#[verifier::loop_isolation(false)]
pub fn obj_get<'a>(entries: &'a Vec<(String, JsonValue)>, key: &String) -> (r: Option<
    &'a JsonValue,
>)
    ensures
        (match r {
            Some(v) => spec_obj_get(view_json_members(entries@), key@) == Some(view_json(*v)),
            None => spec_obj_get(view_json_members(entries@), key@) is None,
        }),
{
    let mut i: usize = 0;
    proof {
        assert(entries@.skip(0) =~= entries@);
    }
    while i < entries.len()
        invariant
            i <= entries@.len(),
            spec_obj_get(view_json_members(entries@), key@) == spec_obj_get(
                view_json_members(entries@.skip(i as int)),
                key@,
            ),
        decreases entries@.len() - i,
    {
        proof {
            lemma_view_json_members(entries@.skip(i as int));
            assert(entries@.skip(i as int)[0] == entries@[i as int]);
        }
        if entries[i].0 == *key {
            return Some(&entries[i].1);
        }
        proof {
            assert(view_json_members(entries@.skip(i as int)).skip(1) =~= view_json_members(
                entries@.skip(i as int).skip(1),
            ));
            assert(entries@.skip(i as int).skip(1) =~= entries@.skip(i + 1 as int));
        }
        i = i + 1;
    }
    proof {
        assert(entries@.skip(entries@.len() as int) =~= Seq::<(String, JsonValue)>::empty());
    }
    None
}

/// The decoded JSON reply: a mapping from string keys to JSON values.
#[derive(Debug, PartialEq, Eq)]
pub struct OpenRouterResponse {
    pub response_map: Vec<(String, JsonValue)>,
}

impl OpenRouterResponse {
    /// Wraps an already decoded reply.
    pub fn new(response_map: Vec<(String, JsonValue)>) -> (r: Self)
        ensures
            r.response_map == response_map,
    {
        Self { response_map }
    }

    /// The one textual completion of the reply: the `"content"` under the
    /// `"message"` of the first element of `"choices"`, serialized to its
    /// JSON text and then cleaned (outer quotes off, control characters
    /// out, escaped quotes unescaped).
    ///
    /// "Outer quotes off" is read broadly: the quote pair the serializer
    /// adds around a string goes, and when the content itself still begins
    /// and ends with a quote pair of its own, that pair goes too. Quotes
    /// strictly inside the content always stay.
    ///
    /// The reply of a single, non-batched completion holds exactly one
    /// choice, so the first element is read; callers that request several
    /// choices should walk `choices` themselves. Every miss on that path,
    /// an empty `choices` included, is a `NoResponseError`.
    pub fn get_response(&self) -> (r: Result<String, OpenRouterError>)
        ensures
            (match spec_extract(view_json_members(self.response_map@)) {
                Some(v) => r matches Ok(s) && s@ == spec_cleaned(spec_json_text(v)),
                None => r == Err::<String, OpenRouterError>(OpenRouterError::NoResponseError),
            }),
    {
        let choices_key = String::from_str("choices");
        let message_key = String::from_str("message");
        let content_key = String::from_str("content");
        match obj_get(&self.response_map, &choices_key) {
            Some(choices) => match choices {
                JsonValue::Arr(items) => {
                    if items.len() == 0 {
                        Err(OpenRouterError::NoResponseError)
                    } else {
                        proof {
                            lemma_view_json_seq(items@);
                        }
                        match &items[0] {
                            JsonValue::Obj(choice) => match obj_get(choice, &message_key) {
                                Some(message) => match message {
                                    JsonValue::Obj(fields) => match obj_get(
                                        fields,
                                        &content_key,
                                    ) {
                                        Some(content) => {
                                            let text = json_text(content);
                                            let cs = str_chars(text.as_str());
                                            let cleaned = clean_text(&cs);
                                            Ok(chars_to_string(&cleaned))
                                        },
                                        None => Err(OpenRouterError::NoResponseError),
                                    },
                                    _ => Err(OpenRouterError::NoResponseError),
                                },
                                None => Err(OpenRouterError::NoResponseError),
                            },
                            _ => Err(OpenRouterError::NoResponseError),
                        }
                    }
                },
                _ => Err(OpenRouterError::NoResponseError),
            },
            None => Err(OpenRouterError::NoResponseError),
        }
    }
}

} // verus!
