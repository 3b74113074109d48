//! Reading JSON text back into values.
//!
//! The parser inverts the printer exactly: whatever text it accepts, the
//! value it returns encodes back to that very text. Together with the
//! printer's determinism this pins the decoding of everything the worker
//! publishes; that the printer's output is always accepted is exercised
//! by tests rather than proved.

use vstd::prelude::*;

use crate::codec::{escaped, esc_char, json_of, json_list, json_members, json_members_rest,
    json_rest, lemma_escaped_push, lemma_json_members_rest_push, lemma_json_rest_push, quoted};
use crate::json::{JsonValue, same_json};

verus! {

/// The characters a JSON number's decimal text may contain.
pub open spec fn number_char(c: char) -> bool {
    ('0' <= c && c <= '9') || c == '-' || c == '+' || c == '.' || c == 'e' || c == 'E'
}

/// Plausible decimal text of a number: nonempty, starting with a digit
/// or a minus, all characters from the number set.
pub open spec fn wf_number_text(s: Seq<char>) -> bool {
    s.len() >= 1 && (s[0] == '-' || ('0' <= s[0] && s[0] <= '9')) && (forall|i: int|
        0 <= i < s.len() ==> number_char(s[i]))
}

/// A value every number of which carries plausible decimal text, as the
/// parser delivers them.
pub open spec fn wf_json(v: JsonValue) -> bool
    decreases v,
{
    match v {
        JsonValue::Number(s) => wf_number_text(s@),
        JsonValue::Array(items) => forall|i: int|
            0 <= i < items@.len() ==> wf_json(#[trigger] items@[i]),
        JsonValue::Object(fields) => forall|i: int|
            0 <= i < fields@.len() ==> wf_json(#[trigger] fields@[i].1),
        _ => true,
    }
}

/// Whether `pat` stands in `s` at position `pos`.
fn starts_with_at(s: &str, pos: usize, pat: &str) -> (r: bool)
    requires
        pos <= s@.len(),
    ensures
        r <==> (pos + pat@.len() <= s@.len() && s@.subrange(pos as int, pos + pat@.len())
            == pat@),
{
    let slen = s.unicode_len();
    let plen = pat.unicode_len();
    if slen - pos < plen {
        return false;
    }
    let mut k: usize = 0;
    while k < plen
        invariant
            slen == s@.len(),
            plen == pat@.len(),
            pos + plen <= slen,
            k <= plen,
            forall|m: int| 0 <= m < k ==> s@[pos + m] == pat@[m],
        decreases plen - k,
    {
        if s.get_char(pos + k) != pat.get_char(k) {
            proof {
                let bad = k as int;
                assert(s@[pos + bad] != pat@[bad]);
                assert(s@.subrange(pos as int, pos + pat@.len()) == pat@ ==> s@.subrange(
                    pos as int,
                    pos + pat@.len(),
                )[bad] == pat@[bad]);
            }
            return false;
        }
        k += 1;
    }
    proof {
        assert(s@.subrange(pos as int, pos + pat@.len()) =~= pat@);
    }
    true
}

/// Reads a string literal's body from just after the opening quote to
/// just past the closing one, undoing the escapes; the consumed text is
/// exactly the escaped appearance of the result plus the closing quote.
fn parse_string_body(s: &str, pos: usize) -> (r: Option<(String, usize)>)
    requires
        pos <= s@.len(),
    ensures
        match r {
            Option::Some((t, end)) => pos < end <= s@.len() && s@.subrange(
                pos as int,
                end as int,
            ) == escaped(t@) + seq!['"'],
            Option::None => true,
        },
{
    let slen = s.unicode_len();
    let mut acc = String::new();
    let mut i: usize = pos;
    proof {
        assert(s@.subrange(pos as int, pos as int) =~= escaped(acc@));
    }
    while i < slen
        invariant
            slen == s@.len(),
            pos <= i <= slen,
            s@.subrange(pos as int, i as int) == escaped(acc@),
        decreases slen - i,
    {
        let c = s.get_char(i);
        if c == '"' {
            proof {
                assert(s@.subrange(pos as int, i + 1) =~= escaped(acc@) + seq!['"']);
            }
            return Option::Some((acc, i + 1));
        }
        if c == '\\' {
            if slen - i < 2 {
                return Option::None;
            }
            let d = s.get_char(i + 1);
            let ghost before = acc@;
            proof {
                reveal_strlit("\"");
                reveal_strlit("\\");
                lemma_escaped_push(acc@, s@[i + 1]);
            }
            if d == '"' {
                acc.append("\"");
            } else if d == '\\' {
                acc.append("\\");
            } else {
                return Option::None;
            }
            proof {
                assert(acc@ =~= before.push(s@[i + 1]));
                assert(s@.subrange(pos as int, i + 2) =~= s@.subrange(pos as int, i as int)
                    + seq![s@[i as int], s@[i + 1]]);
                assert(esc_char(s@[i + 1]) =~= seq![s@[i as int], s@[i + 1]]);
                assert(s@.subrange(pos as int, i + 2) =~= escaped(acc@));
            }
            i += 2;
        } else {
            let piece = s.substring_char(i, i + 1);
            let ghost before = acc@;
            proof {
                lemma_escaped_push(acc@, s@[i as int]);
                assert(piece@ =~= seq![s@[i as int]]);
                assert(esc_char(s@[i as int]) =~= seq![s@[i as int]]);
            }
            acc.append(piece);
            proof {
                assert(acc@ =~= before.push(s@[i as int]));
                assert(s@.subrange(pos as int, i + 1) =~= s@.subrange(pos as int, i as int)
                    + seq![s@[i as int]]);
                assert(s@.subrange(pos as int, i + 1) =~= escaped(acc@));
            }
            i += 1;
        }
    }
    Option::None
}

/// Reads a number's decimal text: the maximal run of number characters.
fn parse_number(s: &str, pos: usize) -> (r: Option<(JsonValue, usize)>)
    requires
        pos <= s@.len(),
    ensures
        match r {
            Option::Some((v, end)) => pos < end <= s@.len() && wf_json(v) && json_of(v)
                == s@.subrange(pos as int, end as int),
            Option::None => true,
        },
{
    let slen = s.unicode_len();
    if pos >= slen {
        return Option::None;
    }
    let first = s.get_char(pos);
    if !(first == '-' || ('0' <= first && first <= '9')) {
        return Option::None;
    }
    let mut i: usize = pos + 1;
    while i < slen
        invariant
            slen == s@.len(),
            pos < i <= slen,
            forall|m: int| pos <= m < i ==> number_char(s@[m]),
        decreases slen - i,
    {
        let c = s.get_char(i);
        let keep = ('0' <= c && c <= '9') || c == '-' || c == '+' || c == '.' || c == 'e'
            || c == 'E';
        if !keep {
            break ;
        }
        i += 1;
    }
    let text = s.substring_char(pos, i);
    let value = JsonValue::Number(String::from_str(text));
    proof {
        assert(forall|m: int| 0 <= m < i - pos ==> text@[m] == s@[pos + m]);
        assert(text@[0] == s@[pos as int]);
    }
    Option::Some((value, i))
}

/// Reads one JSON value starting at `pos`; the consumed text is exactly
/// the returned value's JSON text.
pub fn parse_value(s: &str, pos: usize) -> (r: Option<(JsonValue, usize)>)
    requires
        pos <= s@.len(),
    ensures
        match r {
            Option::Some((v, end)) => pos < end <= s@.len() && wf_json(v) && json_of(v)
                == s@.subrange(pos as int, end as int),
            Option::None => true,
        },
    decreases s@.len() - pos, 1int,
{
    proof {
        reveal_strlit("null");
        reveal_strlit("true");
        reveal_strlit("false");
    }
    let slen = s.unicode_len();
    if pos >= slen {
        return Option::None;
    }
    let c = s.get_char(pos);
    if c == 'n' {
        if starts_with_at(s, pos, "null") {
            return Option::Some((JsonValue::Null, pos + 4));
        }
        return Option::None;
    }
    if c == 't' {
        if starts_with_at(s, pos, "true") {
            return Option::Some((JsonValue::Bool(true), pos + 4));
        }
        return Option::None;
    }
    if c == 'f' {
        if starts_with_at(s, pos, "false") {
            return Option::Some((JsonValue::Bool(false), pos + 5));
        }
        return Option::None;
    }
    if c == '"' {
        match parse_string_body(s, pos + 1) {
            Option::None => Option::None,
            Option::Some((t, end)) => {
                proof {
                    assert(s@.subrange(pos as int, end as int) =~= seq!['"'] + s@.subrange(
                        pos + 1,
                        end as int,
                    ));
                    assert(json_of(JsonValue::Text(t)) =~= s@.subrange(pos as int, end as int));
                }
                Option::Some((JsonValue::Text(t), end))
            },
        }
    } else if c == '[' {
        parse_array(s, pos)
    } else if c == '{' {
        parse_object(s, pos)
    } else {
        parse_number(s, pos)
    }
}

/// Reads an array starting at its `[`.
fn parse_array(s: &str, pos: usize) -> (r: Option<(JsonValue, usize)>)
    requires
        pos < s@.len(),
        s@[pos as int] == '[',
    ensures
        match r {
            Option::Some((v, end)) => pos < end <= s@.len() && wf_json(v) && json_of(v)
                == s@.subrange(pos as int, end as int),
            Option::None => true,
        },
    decreases s@.len() - pos, 0int,
{
    let slen = s.unicode_len();
    if slen - pos < 2 {
        return Option::None;
    }
    if s.get_char(pos + 1) == ']' {
        let empty: Vec<JsonValue> = Vec::new();
        proof {
            assert(json_list(empty@) == Seq::<char>::empty());
            assert(json_of(JsonValue::Array(empty)) =~= s@.subrange(pos as int, pos + 2));
        }
        return Option::Some((JsonValue::Array(empty), pos + 2));
    }
    let first = match parse_value(s, pos + 1) {
        Option::None => {
            return Option::None;
        },
        Option::Some(f) => f,
    };
    let mut items: Vec<JsonValue> = Vec::new();
    let ghost head = first.0;
    items.push(first.0);
    let mut e: usize = first.1;
    proof {
        assert(items@.subrange(1, 1) =~= Seq::<JsonValue>::empty());
        assert(s@.subrange(pos as int, e as int) =~= seq![s@[pos as int]] + s@.subrange(
            pos + 1,
            e as int,
        ));
        assert(s@.subrange(pos as int, e as int) =~= seq!['['] + json_of(head) + json_rest(
            items@.subrange(1, 1),
        ));
    }
    loop
        invariant
            slen == s@.len(),
            pos < e <= slen,
            items@.len() >= 1,
            items@[0] == head,
            forall|m: int| 0 <= m < items@.len() ==> wf_json(#[trigger] items@[m]),
            s@.subrange(pos as int, e as int) == seq!['['] + json_of(head) + json_rest(
                items@.subrange(1, items@.len() as int),
            ),
        decreases slen - e,
    {
        if e >= slen {
            return Option::None;
        }
        let c = s.get_char(e);
        if c == ']' {
            proof {
                assert(items@.subrange(1, items@.len() as int) =~= items@.skip(1));
                assert(json_list(items@) == json_of(items@[0]) + json_rest(items@.skip(1)));
                assert(s@.subrange(pos as int, e + 1) =~= s@.subrange(pos as int, e as int)
                    + seq![s@[e as int]]);
                assert(json_of(JsonValue::Array(items)) =~= s@.subrange(pos as int, e + 1));
            }
            return Option::Some((JsonValue::Array(items), e + 1));
        }
        if c != ',' {
            return Option::None;
        }
        let next = match parse_value(s, e + 1) {
            Option::None => {
                return Option::None;
            },
            Option::Some(n) => n,
        };
        proof {
            lemma_json_rest_push(items@.subrange(1, items@.len() as int), next.0);
            assert(items@.push(next.0).subrange(1, items@.push(next.0).len() as int)
                =~= items@.subrange(1, items@.len() as int).push(next.0));
            assert(s@.subrange(pos as int, next.1 as int) =~= s@.subrange(pos as int, e as int)
                + seq![s@[e as int]] + s@.subrange(e + 1, next.1 as int));
            assert(s@.subrange(pos as int, next.1 as int) =~= seq!['['] + json_of(head)
                + json_rest(items@.push(next.0).subrange(
                1,
                items@.push(next.0).len() as int,
            )));
        }
        items.push(next.0);
        e = next.1;
    }
}

/// Reads an object starting at its `{`.
fn parse_object(s: &str, pos: usize) -> (r: Option<(JsonValue, usize)>)
    requires
        pos < s@.len(),
        s@[pos as int] == '{',
    ensures
        match r {
            Option::Some((v, end)) => pos < end <= s@.len() && wf_json(v) && json_of(v)
                == s@.subrange(pos as int, end as int),
            Option::None => true,
        },
    decreases s@.len() - pos, 0int,
{
    let slen = s.unicode_len();
    if slen - pos < 2 {
        return Option::None;
    }
    if s.get_char(pos + 1) == '}' {
        let empty: Vec<(String, JsonValue)> = Vec::new();
        proof {
            assert(json_members(empty@) == Seq::<char>::empty());
            assert(json_of(JsonValue::Object(empty)) =~= s@.subrange(pos as int, pos + 2));
        }
        return Option::Some((JsonValue::Object(empty), pos + 2));
    }
    let first = match parse_member(s, pos + 1) {
        Option::None => {
            return Option::None;
        },
        Option::Some(f) => f,
    };
    let mut fields: Vec<(String, JsonValue)> = Vec::new();
    let ghost head = first.0;
    fields.push(first.0);
    let mut e: usize = first.1;
    proof {
        assert(fields@.subrange(1, 1) =~= Seq::<(String, JsonValue)>::empty());
        assert(s@.subrange(pos as int, e as int) =~= seq![s@[pos as int]] + s@.subrange(
            pos + 1,
            e as int,
        ));
        assert(s@.subrange(pos as int, e as int) =~= seq!['{'] + quoted(head.0@) + seq![':']
            + json_of(head.1) + json_members_rest(fields@.subrange(1, 1)));
    }
    loop
        invariant
            slen == s@.len(),
            pos < e <= slen,
            fields@.len() >= 1,
            fields@[0] == head,
            forall|m: int| 0 <= m < fields@.len() ==> wf_json(#[trigger] fields@[m].1),
            s@.subrange(pos as int, e as int) == seq!['{'] + quoted(head.0@) + seq![':']
                + json_of(head.1) + json_members_rest(
                fields@.subrange(1, fields@.len() as int),
            ),
        decreases slen - e,
    {
        if e >= slen {
            return Option::None;
        }
        let c = s.get_char(e);
        if c == '}' {
            proof {
                assert(fields@.subrange(1, fields@.len() as int) =~= fields@.skip(1));
                assert(json_members(fields@) == quoted(fields@[0].0@) + seq![':'] + json_of(
                    fields@[0].1,
                ) + json_members_rest(fields@.skip(1)));
                assert(s@.subrange(pos as int, e + 1) =~= s@.subrange(pos as int, e as int)
                    + seq![s@[e as int]]);
                assert(json_of(JsonValue::Object(fields)) =~= s@.subrange(pos as int, e + 1));
            }
            return Option::Some((JsonValue::Object(fields), e + 1));
        }
        if c != ',' {
            return Option::None;
        }
        let next = match parse_member(s, e + 1) {
            Option::None => {
                return Option::None;
            },
            Option::Some(n) => n,
        };
        proof {
            lemma_json_members_rest_push(fields@.subrange(1, fields@.len() as int), next.0);
            assert(fields@.push(next.0).subrange(1, fields@.push(next.0).len() as int)
                =~= fields@.subrange(1, fields@.len() as int).push(next.0));
            assert(s@.subrange(pos as int, next.1 as int) =~= s@.subrange(pos as int, e as int)
                + seq![s@[e as int]] + s@.subrange(e + 1, next.1 as int));
            assert(s@.subrange(pos as int, next.1 as int) =~= seq!['{'] + quoted(head.0@)
                + seq![':'] + json_of(head.1) + json_members_rest(fields@.push(
                next.0,
            ).subrange(1, fields@.push(next.0).len() as int)));
        }
        fields.push(next.0);
        e = next.1;
    }
}

/// Reads one `"name":value` member; the consumed text is exactly the
/// member's appearance inside an object.
fn parse_member(s: &str, pos: usize) -> (r: Option<((String, JsonValue), usize)>)
    requires
        pos <= s@.len(),
    ensures
        match r {
            Option::Some((f, end)) => pos < end <= s@.len() && wf_json(f.1) && s@.subrange(
                pos as int,
                end as int,
            ) == quoted(f.0@) + seq![':'] + json_of(f.1),
            Option::None => true,
        },
    decreases s@.len() - pos, 1int,
{
    let slen = s.unicode_len();
    if pos >= slen || s.get_char(pos) != '"' {
        return Option::None;
    }
    let (name, after_name) = match parse_string_body(s, pos + 1) {
        Option::None => {
            return Option::None;
        },
        Option::Some(n) => n,
    };
    if after_name >= slen || s.get_char(after_name) != ':' {
        return Option::None;
    }
    let (value, end) = match parse_value(s, after_name + 1) {
        Option::None => {
            return Option::None;
        },
        Option::Some(v) => v,
    };
    proof {
        assert(s@.subrange(pos as int, end as int) =~= seq![s@[pos as int]] + s@.subrange(
            pos + 1,
            after_name as int,
        ) + seq![s@[after_name as int]] + s@.subrange(after_name + 1, end as int));
        assert(s@.subrange(pos as int, end as int) =~= quoted(name@) + seq![':'] + json_of(
            value,
        ));
    }
    Option::Some(((name, value), end))
}

/// Reads a whole text as one JSON value. Whatever is accepted encodes
/// back to the input, character for character.
pub fn from_json(s: &str) -> (r: Option<JsonValue>)
    ensures
        match r {
            Option::Some(v) => wf_json(v) && json_of(v) == s@,
            Option::None => true,
        },
{
    let slen = s.unicode_len();
    match parse_value(s, 0) {
        Option::None => Option::None,
        Option::Some((v, end)) => {
            if end == slen {
                proof {
                    assert(s@.subrange(0, s@.len() as int) =~= s@);
                }
                Option::Some(v)
            } else {
                Option::None
            }
        },
    }
}

} // verus!
// The uniqueness argument: a value's JSON text, followed by a separator
// or nothing, determines the value. Together with `from_json`'s
// contract this closes the round trip: decoding an encoded value gives
// back a deeply equal value.

verus! {

/// What may follow a complete value inside a document: nothing, or a
/// separator or closer.
pub open spec fn follower(r: Seq<char>) -> bool {
    r.len() == 0 || r[0] == ',' || r[0] == ']' || r[0] == '}'
}

/// Equal-length prefixes of equal concatenations match, and so do the
/// tails.
proof fn lemma_concat_cancel(a: Seq<char>, b: Seq<char>, c: Seq<char>, d: Seq<char>)
    requires
        a + b == c + d,
        a.len() == c.len(),
    ensures
        a == c,
        b == d,
{
    assert forall|i: int| 0 <= i < a.len() implies a[i] == c[i] by {
        assert((a + b)[i] == a[i]);
        assert((c + d)[i] == c[i]);
    }
    assert(a =~= c);
    assert(b.len() == d.len()) by {
        assert((a + b).len() == a.len() + b.len());
        assert((c + d).len() == c.len() + d.len());
    }
    assert forall|i: int| 0 <= i < b.len() implies b[i] == d[i] by {
        assert((a + b)[a.len() + i] == b[i]);
        assert((c + d)[c.len() + i] == d[i]);
    }
    assert(b =~= d);
}

/// Every well-formed value's text is nonempty, and its first character
/// names the constructor.
proof fn lemma_json_first(v: JsonValue)
    requires
        wf_json(v),
    ensures
        json_of(v).len() >= 1,
        match v {
            JsonValue::Null => json_of(v)[0] == 'n',
            JsonValue::Bool(b) => json_of(v)[0] == (if b { 't' } else { 'f' }),
            JsonValue::Number(s) => json_of(v)[0] == '-' || ('0' <= json_of(v)[0]
                && json_of(v)[0] <= '9'),
            JsonValue::Text(_) => json_of(v)[0] == '"',
            JsonValue::Array(_) => json_of(v)[0] == '[',
            JsonValue::Object(_) => json_of(v)[0] == '{',
        },
{
    reveal_strlit("null");
    reveal_strlit("true");
    reveal_strlit("false");
}

/// An escaped string body with its closing quote and anything after is
/// read back uniquely.
proof fn lemma_escaped_unique(x: Seq<char>, y: Seq<char>, r: Seq<char>, r2: Seq<char>)
    requires
        escaped(x) + seq!['"'] + r == escaped(y) + seq!['"'] + r2,
    ensures
        x == y,
        r == r2,
    decreases x.len(),
{
    let lhs = escaped(x) + seq!['"'] + r;
    if x.len() == 0 && y.len() == 0 {
        lemma_concat_cancel(escaped(x) + seq!['"'], r, escaped(y) + seq!['"'], r2);
        assert(x =~= y);
    } else if x.len() == 0 {
        assert(lhs[0] == '"');
        assert(escaped(y) == esc_char(y[0]) + escaped(y.skip(1)));
        assert(lhs[0] == esc_char(y[0])[0]);
        assert(false);
    } else if y.len() == 0 {
        assert(lhs[0] == '"');
        assert(escaped(x) == esc_char(x[0]) + escaped(x.skip(1)));
        assert(lhs[0] == esc_char(x[0])[0]);
        assert(false);
    } else {
        let ex = esc_char(x[0]);
        let ey = esc_char(y[0]);
        assert(escaped(x) == ex + escaped(x.skip(1)));
        assert(escaped(y) == ey + escaped(y.skip(1)));
        assert(lhs[0] == ex[0]);
        assert(lhs[0] == ey[0]);
        if ex.len() == 1 && ey.len() == 1 {
            assert(x[0] == y[0]);
            assert(ex + escaped(x.skip(1)) + seq!['"'] + r =~= ex + (escaped(x.skip(1))
                + seq!['"'] + r));
            assert(ey + escaped(y.skip(1)) + seq!['"'] + r2 =~= ey + (escaped(y.skip(1))
                + seq!['"'] + r2));
            lemma_concat_cancel(
                ex,
                escaped(x.skip(1)) + seq!['"'] + r,
                ey,
                escaped(y.skip(1)) + seq!['"'] + r2,
            );
            lemma_escaped_unique(x.skip(1), y.skip(1), r, r2);
            assert(x =~= seq![x[0]] + x.skip(1));
            assert(y =~= seq![y[0]] + y.skip(1));
        } else if ex.len() == 2 && ey.len() == 2 {
            assert(lhs[1] == ex[1]);
            assert(lhs[1] == ey[1]);
            assert(x[0] == y[0]);
            assert(ex + escaped(x.skip(1)) + seq!['"'] + r =~= ex + (escaped(x.skip(1))
                + seq!['"'] + r));
            assert(ey + escaped(y.skip(1)) + seq!['"'] + r2 =~= ey + (escaped(y.skip(1))
                + seq!['"'] + r2));
            lemma_concat_cancel(
                ex,
                escaped(x.skip(1)) + seq!['"'] + r,
                ey,
                escaped(y.skip(1)) + seq!['"'] + r2,
            );
            lemma_escaped_unique(x.skip(1), y.skip(1), r, r2);
            assert(x =~= seq![x[0]] + x.skip(1));
            assert(y =~= seq![y[0]] + y.skip(1));
        } else {
            assert(false);
        }
    }
}

/// Elementwise deep equality of two arrays' items.
pub open spec fn same_items(xs: Seq<JsonValue>, ys: Seq<JsonValue>) -> bool {
    xs.len() == ys.len() && forall|i: int| 0 <= i < xs.len() ==> same_json(xs[i], ys[i])
}

/// Memberwise deep equality of two objects' members.
pub open spec fn same_members(
    xs: Seq<(String, JsonValue)>,
    ys: Seq<(String, JsonValue)>,
) -> bool {
    xs.len() == ys.len() && forall|i: int|
        0 <= i < xs.len() ==> xs[i].0@ == ys[i].0@ && same_json(xs[i].1, ys[i].1)
}

/// All of an array's items are well formed.
pub open spec fn wf_items(xs: Seq<JsonValue>) -> bool {
    forall|i: int| 0 <= i < xs.len() ==> wf_json(#[trigger] xs[i])
}

/// All of an object's member values are well formed.
pub open spec fn wf_members(xs: Seq<(String, JsonValue)>) -> bool {
    forall|i: int| 0 <= i < xs.len() ==> wf_json(#[trigger] xs[i].1)
}

/// A well-formed value's text followed by a separator or nothing is
/// read back uniquely.
proof fn lemma_value_unique(u: JsonValue, v: JsonValue, r: Seq<char>, r2: Seq<char>)
    requires
        wf_json(u),
        wf_json(v),
        json_of(u) + r == json_of(v) + r2,
        follower(r),
        follower(r2),
    ensures
        same_json(u, v),
        r == r2,
    decreases u, 3int,
{
    reveal_strlit("null");
    reveal_strlit("true");
    reveal_strlit("false");
    let lhs = json_of(u) + r;
    lemma_json_first(u);
    lemma_json_first(v);
    assert(lhs[0] == json_of(u)[0]);
    assert(lhs[0] == json_of(v)[0]);
    match (u, v) {
        (JsonValue::Null, JsonValue::Null) => {
            lemma_concat_cancel(json_of(u), r, json_of(v), r2);
        },
        (JsonValue::Bool(a), JsonValue::Bool(b)) => {
            assert(a == b);
            lemma_concat_cancel(json_of(u), r, json_of(v), r2);
        },
        (JsonValue::Number(a), JsonValue::Number(b)) => {
            if a@.len() < b@.len() {
                assert(lhs[a@.len() as int] == r[0]);
                assert(lhs[a@.len() as int] == b@[a@.len() as int]);
                assert(number_char(b@[a@.len() as int]));
                assert(r.len() >= 1) by {
                    assert(lhs.len() == b@.len() + r2.len());
                }
                assert(false);
            }
            if b@.len() < a@.len() {
                assert(lhs[b@.len() as int] == r2[0]);
                assert(lhs[b@.len() as int] == a@[b@.len() as int]);
                assert(number_char(a@[b@.len() as int]));
                assert(r2.len() >= 1) by {
                    assert(lhs.len() == a@.len() + r.len());
                }
                assert(false);
            }
            lemma_concat_cancel(json_of(u), r, json_of(v), r2);
        },
        (JsonValue::Text(a), JsonValue::Text(b)) => {
            assert(quoted(a@) + r =~= seq!['"'] + (escaped(a@) + seq!['"'] + r));
            assert(quoted(b@) + r2 =~= seq!['"'] + (escaped(b@) + seq!['"'] + r2));
            lemma_concat_cancel(
                seq!['"'],
                escaped(a@) + seq!['"'] + r,
                seq!['"'],
                escaped(b@) + seq!['"'] + r2,
            );
            lemma_escaped_unique(a@, b@, r, r2);
        },
        (JsonValue::Array(xs), JsonValue::Array(ys)) => {
            assert(json_of(u) + r =~= seq!['['] + (json_list(xs@) + (seq![']'] + r)));
            assert(json_of(v) + r2 =~= seq!['['] + (json_list(ys@) + (seq![']'] + r2)));
            lemma_concat_cancel(
                seq!['['],
                json_list(xs@) + (seq![']'] + r),
                seq!['['],
                json_list(ys@) + (seq![']'] + r2),
            );
            assert(decreases_to!(u => u->Array_0));
            lemma_list_unique(xs@, ys@, seq![']'] + r, seq![']'] + r2);
            lemma_concat_cancel(seq![']'], r, seq![']'], r2);
        },
        (JsonValue::Object(xs), JsonValue::Object(ys)) => {
            assert(json_of(u) + r =~= seq!['{'] + (json_members(xs@) + (seq!['}'] + r)));
            assert(json_of(v) + r2 =~= seq!['{'] + (json_members(ys@) + (seq!['}'] + r2)));
            lemma_concat_cancel(
                seq!['{'],
                json_members(xs@) + (seq!['}'] + r),
                seq!['{'],
                json_members(ys@) + (seq!['}'] + r2),
            );
            assert(decreases_to!(u => u->Object_0));
            lemma_members_unique(xs@, ys@, seq!['}'] + r, seq!['}'] + r2);
            lemma_concat_cancel(seq!['}'], r, seq!['}'], r2);
        },
        _ => {
            assert(false);
        },
    }
}

/// An array's item list followed by its closer is read back uniquely.
proof fn lemma_list_unique(xs: Seq<JsonValue>, ys: Seq<JsonValue>, r: Seq<char>, r2: Seq<char>)
    requires
        wf_items(xs),
        wf_items(ys),
        json_list(xs) + r == json_list(ys) + r2,
        r.len() >= 1 && r[0] == ']',
        r2.len() >= 1 && r2[0] == ']',
    ensures
        same_items(xs, ys),
        r == r2,
    decreases xs, 2int,
{
    let lhs = json_list(xs) + r;
    if xs.len() == 0 && ys.len() == 0 {
        assert(json_list(xs) == Seq::<char>::empty());
        lemma_concat_cancel(json_list(xs), r, json_list(ys), r2);
    } else if xs.len() == 0 {
        lemma_json_first(ys[0]);
        assert(json_list(ys) == json_of(ys[0]) + json_rest(ys.skip(1)));
        assert(lhs[0] == r[0]);
        assert(lhs[0] == json_of(ys[0])[0]);
        assert(false);
    } else if ys.len() == 0 {
        lemma_json_first(xs[0]);
        assert(json_list(xs) == json_of(xs[0]) + json_rest(xs.skip(1)));
        assert(lhs[0] == r2[0]);
        assert(lhs[0] == json_of(xs[0])[0]);
        assert(false);
    } else {
        assert(json_list(xs) == json_of(xs[0]) + json_rest(xs.skip(1)));
        assert(json_list(ys) == json_of(ys[0]) + json_rest(ys.skip(1)));
        assert(lhs =~= json_of(xs[0]) + (json_rest(xs.skip(1)) + r));
        assert(json_list(ys) + r2 =~= json_of(ys[0]) + (json_rest(ys.skip(1)) + r2));
        assert(follower(json_rest(xs.skip(1)) + r)) by {
            if xs.skip(1).len() >= 1 {
                assert((json_rest(xs.skip(1)) + r)[0] == ',');
            } else {
                assert(json_rest(xs.skip(1)) == Seq::<char>::empty());
                assert((json_rest(xs.skip(1)) + r)[0] == r[0]);
            }
        }
        assert(follower(json_rest(ys.skip(1)) + r2)) by {
            if ys.skip(1).len() >= 1 {
                assert((json_rest(ys.skip(1)) + r2)[0] == ',');
            } else {
                assert(json_rest(ys.skip(1)) == Seq::<char>::empty());
                assert((json_rest(ys.skip(1)) + r2)[0] == r2[0]);
            }
        }
        lemma_value_unique(xs[0], ys[0], json_rest(xs.skip(1)) + r, json_rest(ys.skip(1)) + r2);
        lemma_rest_unique(xs.skip(1), ys.skip(1), r, r2);
        assert(same_items(xs, ys)) by {
            assert(forall|i: int| 1 <= i < xs.len() ==> xs[i] == xs.skip(1)[i - 1]
                && ys[i] == ys.skip(1)[i - 1]);
        }
    }
}

/// An array's comma-led tail followed by its closer is read back
/// uniquely.
proof fn lemma_rest_unique(xs: Seq<JsonValue>, ys: Seq<JsonValue>, r: Seq<char>, r2: Seq<char>)
    requires
        wf_items(xs),
        wf_items(ys),
        json_rest(xs) + r == json_rest(ys) + r2,
        r.len() >= 1 && r[0] == ']',
        r2.len() >= 1 && r2[0] == ']',
    ensures
        same_items(xs, ys),
        r == r2,
    decreases xs, 2int,
{
    let lhs = json_rest(xs) + r;
    if xs.len() == 0 && ys.len() == 0 {
        lemma_concat_cancel(json_rest(xs), r, json_rest(ys), r2);
    } else if xs.len() == 0 {
        assert(json_rest(ys) == seq![','] + json_of(ys[0]) + json_rest(ys.skip(1)));
        assert(lhs[0] == r[0]);
        assert(lhs[0] == ',');
        assert(false);
    } else if ys.len() == 0 {
        assert(json_rest(xs) == seq![','] + json_of(xs[0]) + json_rest(xs.skip(1)));
        assert(lhs[0] == r2[0]);
        assert(lhs[0] == ',');
        assert(false);
    } else {
        assert(json_rest(xs) == seq![','] + json_of(xs[0]) + json_rest(xs.skip(1)));
        assert(json_rest(ys) == seq![','] + json_of(ys[0]) + json_rest(ys.skip(1)));
        assert(lhs =~= seq![','] + (json_of(xs[0]) + (json_rest(xs.skip(1)) + r)));
        assert(json_rest(ys) + r2 =~= seq![','] + (json_of(ys[0]) + (json_rest(ys.skip(1))
            + r2)));
        lemma_concat_cancel(
            seq![','],
            json_of(xs[0]) + (json_rest(xs.skip(1)) + r),
            seq![','],
            json_of(ys[0]) + (json_rest(ys.skip(1)) + r2),
        );
        assert(follower(json_rest(xs.skip(1)) + r)) by {
            if xs.skip(1).len() >= 1 {
                assert((json_rest(xs.skip(1)) + r)[0] == ',');
            } else {
                assert(json_rest(xs.skip(1)) == Seq::<char>::empty());
                assert((json_rest(xs.skip(1)) + r)[0] == r[0]);
            }
        }
        assert(follower(json_rest(ys.skip(1)) + r2)) by {
            if ys.skip(1).len() >= 1 {
                assert((json_rest(ys.skip(1)) + r2)[0] == ',');
            } else {
                assert(json_rest(ys.skip(1)) == Seq::<char>::empty());
                assert((json_rest(ys.skip(1)) + r2)[0] == r2[0]);
            }
        }
        lemma_value_unique(xs[0], ys[0], json_rest(xs.skip(1)) + r, json_rest(ys.skip(1)) + r2);
        lemma_rest_unique(xs.skip(1), ys.skip(1), r, r2);
        assert(same_items(xs, ys)) by {
            assert(forall|i: int| 1 <= i < xs.len() ==> xs[i] == xs.skip(1)[i - 1]
                && ys[i] == ys.skip(1)[i - 1]);
        }
    }
}

/// One object member with everything after it is read back uniquely.
proof fn lemma_member_unique(
    x: (String, JsonValue),
    y: (String, JsonValue),
    r: Seq<char>,
    r2: Seq<char>,
)
    requires
        wf_json(x.1),
        wf_json(y.1),
        quoted(x.0@) + seq![':'] + json_of(x.1) + r == quoted(y.0@) + seq![':'] + json_of(y.1)
            + r2,
        follower(r),
        follower(r2),
    ensures
        x.0@ == y.0@,
        same_json(x.1, y.1),
        r == r2,
    decreases x, 3int,
{
    assert(quoted(x.0@) + seq![':'] + json_of(x.1) + r =~= seq!['"'] + (escaped(x.0@)
        + seq!['"'] + (seq![':'] + (json_of(x.1) + r))));
    assert(quoted(y.0@) + seq![':'] + json_of(y.1) + r2 =~= seq!['"'] + (escaped(y.0@)
        + seq!['"'] + (seq![':'] + (json_of(y.1) + r2))));
    lemma_concat_cancel(
        seq!['"'],
        escaped(x.0@) + seq!['"'] + (seq![':'] + (json_of(x.1) + r)),
        seq!['"'],
        escaped(y.0@) + seq!['"'] + (seq![':'] + (json_of(y.1) + r2)),
    );
    assert(escaped(x.0@) + seq!['"'] + (seq![':'] + (json_of(x.1) + r)) =~= escaped(x.0@)
        + seq!['"'] + (seq![':'] + (json_of(x.1) + r)));
    lemma_escaped_unique(
        x.0@,
        y.0@,
        seq![':'] + (json_of(x.1) + r),
        seq![':'] + (json_of(y.1) + r2),
    );
    lemma_concat_cancel(seq![':'], json_of(x.1) + r, seq![':'], json_of(y.1) + r2);
    assert(decreases_to!(x => x.1));
    lemma_value_unique(x.1, y.1, r, r2);
}

/// An object's member list followed by its closer is read back
/// uniquely.
proof fn lemma_members_unique(
    xs: Seq<(String, JsonValue)>,
    ys: Seq<(String, JsonValue)>,
    r: Seq<char>,
    r2: Seq<char>,
)
    requires
        wf_members(xs),
        wf_members(ys),
        json_members(xs) + r == json_members(ys) + r2,
        r.len() >= 1 && r[0] == '}',
        r2.len() >= 1 && r2[0] == '}',
    ensures
        same_members(xs, ys),
        r == r2,
    decreases xs, 2int,
{
    let lhs = json_members(xs) + r;
    if xs.len() == 0 && ys.len() == 0 {
        lemma_concat_cancel(json_members(xs), r, json_members(ys), r2);
    } else if xs.len() == 0 {
        assert(json_members(ys) == quoted(ys[0].0@) + seq![':'] + json_of(ys[0].1)
            + json_members_rest(ys.skip(1)));
        assert(lhs[0] == r[0]);
        assert(lhs[0] == '"');
        assert(false);
    } else if ys.len() == 0 {
        assert(json_members(xs) == quoted(xs[0].0@) + seq![':'] + json_of(xs[0].1)
            + json_members_rest(xs.skip(1)));
        assert(lhs[0] == r2[0]);
        assert(lhs[0] == '"');
        assert(false);
    } else {
        assert(json_members(xs) == quoted(xs[0].0@) + seq![':'] + json_of(xs[0].1)
            + json_members_rest(xs.skip(1)));
        assert(json_members(ys) == quoted(ys[0].0@) + seq![':'] + json_of(ys[0].1)
            + json_members_rest(ys.skip(1)));
        assert(lhs =~= quoted(xs[0].0@) + seq![':'] + json_of(xs[0].1) + (json_members_rest(
            xs.skip(1),
        ) + r));
        assert(json_members(ys) + r2 =~= quoted(ys[0].0@) + seq![':'] + json_of(ys[0].1)
            + (json_members_rest(ys.skip(1)) + r2));
        assert(follower(json_members_rest(xs.skip(1)) + r)) by {
            if xs.skip(1).len() >= 1 {
                assert((json_members_rest(xs.skip(1)) + r)[0] == ',');
            } else {
                assert(json_members_rest(xs.skip(1)) == Seq::<char>::empty());
                assert((json_members_rest(xs.skip(1)) + r)[0] == r[0]);
            }
        }
        assert(follower(json_members_rest(ys.skip(1)) + r2)) by {
            if ys.skip(1).len() >= 1 {
                assert((json_members_rest(ys.skip(1)) + r2)[0] == ',');
            } else {
                assert(json_members_rest(ys.skip(1)) == Seq::<char>::empty());
                assert((json_members_rest(ys.skip(1)) + r2)[0] == r2[0]);
            }
        }
        lemma_member_unique(
            xs[0],
            ys[0],
            json_members_rest(xs.skip(1)) + r,
            json_members_rest(ys.skip(1)) + r2,
        );
        lemma_members_rest_unique(xs.skip(1), ys.skip(1), r, r2);
        assert(same_members(xs, ys)) by {
            assert(forall|i: int| 1 <= i < xs.len() ==> xs[i] == xs.skip(1)[i - 1]
                && ys[i] == ys.skip(1)[i - 1]);
        }
    }
}

/// An object's comma-led member tail followed by its closer is read
/// back uniquely.
proof fn lemma_members_rest_unique(
    xs: Seq<(String, JsonValue)>,
    ys: Seq<(String, JsonValue)>,
    r: Seq<char>,
    r2: Seq<char>,
)
    requires
        wf_members(xs),
        wf_members(ys),
        json_members_rest(xs) + r == json_members_rest(ys) + r2,
        r.len() >= 1 && r[0] == '}',
        r2.len() >= 1 && r2[0] == '}',
    ensures
        same_members(xs, ys),
        r == r2,
    decreases xs, 2int,
{
    let lhs = json_members_rest(xs) + r;
    if xs.len() == 0 && ys.len() == 0 {
        lemma_concat_cancel(json_members_rest(xs), r, json_members_rest(ys), r2);
    } else if xs.len() == 0 {
        assert(json_members_rest(ys) == seq![','] + quoted(ys[0].0@) + seq![':'] + json_of(
            ys[0].1,
        ) + json_members_rest(ys.skip(1)));
        assert(lhs[0] == r[0]);
        assert(lhs[0] == ',');
        assert(false);
    } else if ys.len() == 0 {
        assert(json_members_rest(xs) == seq![','] + quoted(xs[0].0@) + seq![':'] + json_of(
            xs[0].1,
        ) + json_members_rest(xs.skip(1)));
        assert(lhs[0] == r2[0]);
        assert(lhs[0] == ',');
        assert(false);
    } else {
        assert(json_members_rest(xs) == seq![','] + quoted(xs[0].0@) + seq![':'] + json_of(
            xs[0].1,
        ) + json_members_rest(xs.skip(1)));
        assert(json_members_rest(ys) == seq![','] + quoted(ys[0].0@) + seq![':'] + json_of(
            ys[0].1,
        ) + json_members_rest(ys.skip(1)));
        assert(lhs =~= seq![','] + (quoted(xs[0].0@) + seq![':'] + json_of(xs[0].1)
            + (json_members_rest(xs.skip(1)) + r)));
        assert(json_members_rest(ys) + r2 =~= seq![','] + (quoted(ys[0].0@) + seq![':']
            + json_of(ys[0].1) + (json_members_rest(ys.skip(1)) + r2)));
        lemma_concat_cancel(
            seq![','],
            quoted(xs[0].0@) + seq![':'] + json_of(xs[0].1) + (json_members_rest(xs.skip(1))
                + r),
            seq![','],
            quoted(ys[0].0@) + seq![':'] + json_of(ys[0].1) + (json_members_rest(ys.skip(1))
                + r2),
        );
        assert(follower(json_members_rest(xs.skip(1)) + r)) by {
            if xs.skip(1).len() >= 1 {
                assert((json_members_rest(xs.skip(1)) + r)[0] == ',');
            } else {
                assert(json_members_rest(xs.skip(1)) == Seq::<char>::empty());
                assert((json_members_rest(xs.skip(1)) + r)[0] == r[0]);
            }
        }
        assert(follower(json_members_rest(ys.skip(1)) + r2)) by {
            if ys.skip(1).len() >= 1 {
                assert((json_members_rest(ys.skip(1)) + r2)[0] == ',');
            } else {
                assert(json_members_rest(ys.skip(1)) == Seq::<char>::empty());
                assert((json_members_rest(ys.skip(1)) + r2)[0] == r2[0]);
            }
        }
        lemma_member_unique(
            xs[0],
            ys[0],
            json_members_rest(xs.skip(1)) + r,
            json_members_rest(ys.skip(1)) + r2,
        );
        lemma_members_rest_unique(xs.skip(1), ys.skip(1), r, r2);
        assert(same_members(xs, ys)) by {
            assert(forall|i: int| 1 <= i < xs.len() ==> xs[i] == xs.skip(1)[i - 1]
                && ys[i] == ys.skip(1)[i - 1]);
        }
    }
}

/// A well-formed value's JSON text determines the value: equal texts
/// name deeply equal values. With `from_json`'s contract this closes
/// the round trip: a decoded encoding is deeply equal to what was
/// encoded.
pub proof fn lemma_json_text_injective(a: JsonValue, b: JsonValue)
    requires
        wf_json(a),
        wf_json(b),
        json_of(a) == json_of(b),
    ensures
        same_json(a, b),
{
    assert(json_of(a) + Seq::<char>::empty() =~= json_of(a));
    assert(json_of(b) + Seq::<char>::empty() =~= json_of(b));
    lemma_value_unique(a, b, Seq::empty(), Seq::empty());
}

} // verus!
