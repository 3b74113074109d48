//! JSON text of the values the worker publishes.
//!
//! The dead-letter wrapper leaves the worker as JSON; this module states
//! that text character by character and produces it. Equal values encode
//! to equal text, so what the queue holds is determined by the wrapped
//! message alone. Strings are escaped minimally: `"` and `\` get a
//! backslash.

use vstd::prelude::*;

use crate::json::{JsonValue, same_json, same_entries};
use crate::message::{DlqMessage, NotificationMessage};

verus! {

/// How one character appears inside a JSON string literal.
pub open spec fn esc_char(c: char) -> Seq<char> {
    if c == '"' {
        seq!['\\', '"']
    } else if c == '\\' {
        seq!['\\', '\\']
    } else {
        seq![c]
    }
}

/// How a whole string's characters appear inside a JSON string literal.
pub open spec fn escaped(s: Seq<char>) -> Seq<char>
    decreases s.len(),
{
    if s.len() == 0 {
        Seq::empty()
    } else {
        esc_char(s[0]) + escaped(s.skip(1))
    }
}

/// A JSON string literal.
pub open spec fn quoted(s: Seq<char>) -> Seq<char> {
    seq!['"'] + escaped(s) + seq!['"']
}

/// The JSON text of a value. A number appears as its canonical decimal
/// text, as the parser delivered it.
pub open spec fn json_of(v: JsonValue) -> Seq<char>
    decreases v, 1int,
{
    match v {
        JsonValue::Null => "null"@,
        JsonValue::Bool(b) => if b {
            "true"@
        } else {
            "false"@
        },
        JsonValue::Number(s) => s@,
        JsonValue::Text(s) => quoted(s@),
        JsonValue::Array(items) => seq!['['] + json_list(items@) + seq![']'],
        JsonValue::Object(fields) => seq!['{'] + json_members(fields@) + seq!['}'],
    }
}

/// The comma-separated JSON texts of an array's items.
pub open spec fn json_list(items: Seq<JsonValue>) -> Seq<char>
    decreases items, 0int,
{
    if items.len() == 0 {
        Seq::empty()
    } else {
        json_of(items[0]) + json_rest(items.skip(1))
    }
}

/// The remaining items of an array, each preceded by a comma.
pub open spec fn json_rest(items: Seq<JsonValue>) -> Seq<char>
    decreases items, 1int,
{
    if items.len() == 0 {
        Seq::empty()
    } else {
        seq![','] + json_of(items[0]) + json_rest(items.skip(1))
    }
}

/// The comma-separated members of an object.
pub open spec fn json_members(fields: Seq<(String, JsonValue)>) -> Seq<char>
    decreases fields, 0int,
{
    if fields.len() == 0 {
        Seq::empty()
    } else {
        quoted(fields[0].0@) + seq![':'] + json_of(fields[0].1) + json_members_rest(
            fields.skip(1),
        )
    }
}

/// The remaining members of an object, each preceded by a comma.
pub open spec fn json_members_rest(fields: Seq<(String, JsonValue)>) -> Seq<char>
    decreases fields, 1int,
{
    if fields.len() == 0 {
        Seq::empty()
    } else {
        seq![','] + quoted(fields[0].0@) + seq![':'] + json_of(fields[0].1) + json_members_rest(
            fields.skip(1),
        )
    }
}

/// Escaping one more character extends the escaped text by that
/// character's appearance.
pub proof fn lemma_escaped_push(s: Seq<char>, c: char)
    ensures
        escaped(s.push(c)) == escaped(s) + esc_char(c),
    decreases s.len(),
{
    if s.len() == 0 {
        assert(s.push(c)[0] == c);
        assert(s.push(c).skip(1) =~= Seq::<char>::empty());
        assert(escaped(s.push(c)) == esc_char(c) + escaped(Seq::<char>::empty()));
        assert(esc_char(c) + Seq::<char>::empty() =~= esc_char(c));
        assert(Seq::<char>::empty() + esc_char(c) =~= esc_char(c));
    } else {
        assert(s.push(c)[0] == s[0]);
        assert(s.push(c).skip(1) =~= s.skip(1).push(c));
        lemma_escaped_push(s.skip(1), c);
        assert(esc_char(s[0]) + (escaped(s.skip(1)) + esc_char(c)) =~= (esc_char(s[0]) + escaped(
            s.skip(1),
        )) + esc_char(c));
    }
}

/// Appends `s` to `out`, escaped for a JSON string literal.
fn append_escaped(out: &mut String, s: &str)
    ensures
        final(out)@ == old(out)@ + escaped(s@),
{
    proof {
        reveal_strlit("\\");
        reveal_strlit("\"");
    }
    let len = s.unicode_len();
    let mut i: usize = 0;
    proof {
        assert(s@.take(0) =~= Seq::<char>::empty());
        assert(old(out)@ + Seq::<char>::empty() =~= old(out)@);
    }
    while i < len
        invariant
            len == s@.len(),
            i <= len,
            out@ == old(out)@ + escaped(s@.take(i as int)),
        decreases len - i,
    {
        let c = s.get_char(i);
        proof {
            reveal_strlit("\\");
            reveal_strlit("\"");
            assert(s@.take(i + 1) =~= s@.take(i as int).push(s@[i as int]));
            lemma_escaped_push(s@.take(i as int), s@[i as int]);
        }
        if c == '"' {
            out.append("\\");
            out.append("\"");
        } else if c == '\\' {
            out.append("\\");
            out.append("\\");
        } else {
            let piece = s.substring_char(i, i + 1);
            out.append(piece);
            proof {
                assert(piece@ =~= esc_char(s@[i as int]));
            }
        }
        proof {
            assert(out@ =~= old(out)@ + escaped(s@.take(i + 1)));
        }
        i += 1;
    }
    proof {
        assert(s@.take(len as int) =~= s@);
    }
}

/// Appends `s` to `out` as a JSON string literal.
fn append_quoted(out: &mut String, s: &str)
    ensures
        final(out)@ == old(out)@ + quoted(s@),
{
    proof {
        reveal_strlit("\"");
    }
    out.append("\"");
    append_escaped(out, s);
    out.append("\"");
    proof {
        assert("\""@ =~= seq!['"']);
        assert(old(out)@ + quoted(s@) =~= ((old(out)@ + seq!['"']) + escaped(s@)) + seq!['"']);
    }
}

/// Appends the JSON text of `v` to `out`.
fn append_json(out: &mut String, v: &JsonValue)
    ensures
        final(out)@ == old(out)@ + json_of(*v),
    decreases *v,
{
    proof {
        reveal_strlit("null");
        reveal_strlit("true");
        reveal_strlit("false");
        reveal_strlit("[");
        reveal_strlit("]");
        reveal_strlit("{");
        reveal_strlit("}");
        reveal_strlit(",");
        reveal_strlit(":");
    }
    match v {
        JsonValue::Null => out.append("null"),
        JsonValue::Bool(b) => {
            if *b {
                out.append("true")
            } else {
                out.append("false")
            }
        },
        JsonValue::Number(s) => out.append(s.as_str()),
        JsonValue::Text(s) => append_quoted(out, s.as_str()),
        JsonValue::Array(items) => {
            out.append("[");
            let ghost base = out@;
            let mut i: usize = 0;
            while i < items.len()
                invariant
                    *v == JsonValue::Array(*items),
                    base == old(out)@ + seq!['['],
                    i <= items@.len(),
                    i == 0 ==> out@ == base,
                    i > 0 ==> out@ == base + json_of(items@[0]) + json_rest(
                        items@.subrange(1, i as int),
                    ),
                decreases items@.len() - i,
            {
                proof {
                    reveal_strlit(",");
                    vstd::std_specs::vec::axiom_vec_index_decreases(*items, i as int);
                    assert(v->Array_0 == *items);
                    assert(decreases_to!(*v => v->Array_0));
                }
                if i > 0 {
                    out.append(",");
                }
                let ghost before = out@;
                append_json(out, &items[i]);
                proof {
                    if i == 0 {
                        assert(out@ =~= base + json_of(items@[0]) + json_rest(
                            items@.subrange(1, 1),
                        )) by {
                            assert(items@.subrange(1, 1) =~= Seq::<JsonValue>::empty());
                        }
                    } else {
                        lemma_json_rest_push(items@.subrange(1, i as int), items@[i as int]);
                        assert(items@.subrange(1, i + 1) =~= items@.subrange(1, i as int).push(
                            items@[i as int],
                        ));
                        assert(out@ =~= base + json_of(items@[0]) + json_rest(
                            items@.subrange(1, i + 1),
                        ));
                    }
                }
                i += 1;
            }
            out.append("]");
            proof {
                if items@.len() == 0 {
                    assert(json_list(items@) =~= Seq::<char>::empty());
                    assert(out@ =~= old(out)@ + json_of(*v));
                } else {
                    assert(items@.subrange(1, items@.len() as int) =~= items@.skip(1));
                    assert(out@ =~= old(out)@ + json_of(*v));
                }
            }
        },
        JsonValue::Object(fields) => {
            out.append("{");
            let ghost base = out@;
            let mut i: usize = 0;
            while i < fields.len()
                invariant
                    *v == JsonValue::Object(*fields),
                    base == old(out)@ + seq!['{'],
                    i <= fields@.len(),
                    i == 0 ==> out@ == base,
                    i > 0 ==> out@ == base + quoted(fields@[0].0@) + seq![':'] + json_of(
                        fields@[0].1,
                    ) + json_members_rest(fields@.subrange(1, i as int)),
                decreases fields@.len() - i,
            {
                proof {
                    reveal_strlit(",");
                    reveal_strlit(":");
                    vstd::std_specs::vec::axiom_vec_index_decreases(*fields, i as int);
                    assert(v->Object_0 == *fields);
                    assert(decreases_to!(*v => v->Object_0));
                    assert(decreases_to!(fields@[i as int] => fields@[i as int].1));
                }
                if i > 0 {
                    out.append(",");
                }
                append_quoted(out, fields[i].0.as_str());
                out.append(":");
                append_json(out, &fields[i].1);
                proof {
                    if i == 0 {
                        assert(json_members_rest(fields@.subrange(1, 1)) =~= Seq::<char>::empty())
                            by {
                            assert(fields@.subrange(1, 1) =~= Seq::<(String, JsonValue)>::empty());
                        }
                        assert(out@ =~= base + quoted(fields@[0].0@) + seq![':'] + json_of(
                            fields@[0].1,
                        ) + json_members_rest(fields@.subrange(1, 1)));
                    } else {
                        lemma_json_members_rest_push(
                            fields@.subrange(1, i as int),
                            fields@[i as int],
                        );
                        assert(fields@.subrange(1, i + 1) =~= fields@.subrange(1, i as int).push(
                            fields@[i as int],
                        ));
                        assert(out@ =~= base + quoted(fields@[0].0@) + seq![':'] + json_of(
                            fields@[0].1,
                        ) + json_members_rest(fields@.subrange(1, i + 1)));
                    }
                }
                i += 1;
            }
            out.append("}");
            proof {
                if fields@.len() == 0 {
                    assert(json_members(fields@) =~= Seq::<char>::empty());
                    assert(out@ =~= old(out)@ + json_of(*v));
                } else {
                    assert(fields@.subrange(1, fields@.len() as int) =~= fields@.skip(1));
                    assert(out@ =~= old(out)@ + json_of(*v));
                }
            }
        },
    }
}

/// One more item extends an array tail by a comma and its text.
pub proof fn lemma_json_rest_push(items: Seq<JsonValue>, x: JsonValue)
    ensures
        json_rest(items.push(x)) == json_rest(items) + seq![','] + json_of(x),
    decreases items.len(),
{
    if items.len() == 0 {
        assert(items.push(x)[0] == x);
        assert(items.push(x).skip(1) =~= Seq::<JsonValue>::empty());
        assert(json_rest(items.push(x)) == seq![','] + json_of(x) + json_rest(
            items.push(x).skip(1),
        ));
        assert(json_rest(items.push(x).skip(1)) == Seq::<char>::empty());
        assert(json_rest(items) == Seq::<char>::empty());
        assert(Seq::<char>::empty() + seq![','] + json_of(x) =~= seq![','] + json_of(x)
            + Seq::<char>::empty());
    } else {
        assert(items.push(x)[0] == items[0]);
        assert(items.push(x).skip(1) =~= items.skip(1).push(x));
        lemma_json_rest_push(items.skip(1), x);
        assert(json_rest(items.push(x)) == seq![','] + json_of(items[0]) + json_rest(
            items.skip(1).push(x),
        ));
        assert(json_rest(items) == seq![','] + json_of(items[0]) + json_rest(items.skip(1)));
        assert(seq![','] + json_of(items[0]) + (json_rest(items.skip(1)) + seq![','] + json_of(x))
            =~= (seq![','] + json_of(items[0]) + json_rest(items.skip(1))) + seq![','] + json_of(
            x,
        ));
    }
}

/// One more member extends an object tail by a comma and its text.
pub proof fn lemma_json_members_rest_push(fields: Seq<(String, JsonValue)>, x: (String, JsonValue))
    ensures
        json_members_rest(fields.push(x)) == json_members_rest(fields) + seq![','] + quoted(x.0@)
            + seq![':'] + json_of(x.1),
    decreases fields.len(),
{
    if fields.len() == 0 {
        assert(fields.push(x)[0] == x);
        assert(fields.push(x).skip(1) =~= Seq::<(String, JsonValue)>::empty());
        assert(json_members_rest(fields.push(x)) == seq![','] + quoted(x.0@) + seq![':']
            + json_of(x.1) + json_members_rest(fields.push(x).skip(1)));
        assert(json_members_rest(fields.push(x).skip(1)) == Seq::<char>::empty());
        assert(json_members_rest(fields) == Seq::<char>::empty());
        assert(Seq::<char>::empty() + seq![','] + quoted(x.0@) + seq![':'] + json_of(x.1)
            =~= seq![','] + quoted(x.0@) + seq![':'] + json_of(x.1) + Seq::<char>::empty());
    } else {
        assert(fields.push(x)[0] == fields[0]);
        assert(fields.push(x).skip(1) =~= fields.skip(1).push(x));
        lemma_json_members_rest_push(fields.skip(1), x);
        assert(json_members_rest(fields.push(x)) == seq![','] + quoted(fields[0].0@) + seq![':']
            + json_of(fields[0].1) + json_members_rest(fields.skip(1).push(x)));
        assert(json_members_rest(fields) == seq![','] + quoted(fields[0].0@) + seq![':']
            + json_of(fields[0].1) + json_members_rest(fields.skip(1)));
        assert(seq![','] + quoted(fields[0].0@) + seq![':'] + json_of(fields[0].1)
            + (json_members_rest(fields.skip(1)) + seq![','] + quoted(x.0@) + seq![':'] + json_of(
            x.1,
        )) =~= (seq![','] + quoted(fields[0].0@) + seq![':'] + json_of(fields[0].1)
            + json_members_rest(fields.skip(1))) + seq![','] + quoted(x.0@) + seq![':'] + json_of(
            x.1,
        ));
    }
}

/// The JSON text of a value.
pub fn to_json(v: &JsonValue) -> (r: String)
    ensures
        r@ == json_of(*v),
{
    let mut out = String::new();
    append_json(&mut out, v);
    proof {
        assert(Seq::<char>::empty() + json_of(*v) =~= json_of(*v));
    }
    out
}

/// The JSON text of a notification message, its fields in a fixed
/// order.
pub open spec fn message_json(m: NotificationMessage) -> Seq<char> {
    seq!['{'] + quoted("trace_id"@) + seq![':'] + quoted(m.trace_id@) + seq![','] + quoted(
        "idempotency_key"@,
    ) + seq![':'] + quoted(m.idempotency_key@) + seq![','] + quoted("user_id"@) + seq![':']
        + quoted(m.user_id@) + seq![','] + quoted("notification_type"@) + seq![':'] + quoted(
        m.notification_type@,
    ) + seq![','] + quoted("template_code"@) + seq![':'] + quoted(m.template_code@) + seq![',']
        + quoted("variables"@) + seq![':'] + seq!['{'] + json_members(m.variables@) + seq!['}']
        + seq![','] + quoted("metadata"@) + seq![':'] + seq!['{'] + json_members(m.metadata@)
        + seq!['}'] + seq!['}']
}

/// The JSON text a dead-letter wrapper is published as.
pub open spec fn dlq_json(d: DlqMessage) -> Seq<char> {
    seq!['{'] + quoted("original_message"@) + seq![':'] + message_json(d.original_message)
        + seq![','] + quoted("failure_reason"@) + seq![':'] + quoted(d.failure_reason@)
        + seq![','] + quoted("failed_at"@) + seq![':'] + quoted(d.failed_at@) + seq!['}']
}

/// Appends one `"name":` member prefix.
fn append_member_name(out: &mut String, name: &str)
    ensures
        final(out)@ == old(out)@ + quoted(name@) + seq![':'],
{
    proof {
        reveal_strlit(":");
    }
    append_quoted(out, name);
    out.append(":");
}

/// The JSON text of a notification message.
pub fn message_to_json(m: &NotificationMessage) -> (r: String)
    ensures
        r@ == message_json(*m),
{
    proof {
        reveal_strlit("{");
        reveal_strlit("}");
        reveal_strlit(",");
    }
    let mut out = String::new();
    out.append("{");
    append_member_name(&mut out, "trace_id");
    append_quoted(&mut out, m.trace_id.as_str());
    out.append(",");
    append_member_name(&mut out, "idempotency_key");
    append_quoted(&mut out, m.idempotency_key.as_str());
    out.append(",");
    append_member_name(&mut out, "user_id");
    append_quoted(&mut out, m.user_id.as_str());
    out.append(",");
    append_member_name(&mut out, "notification_type");
    append_quoted(&mut out, m.notification_type.as_str());
    out.append(",");
    append_member_name(&mut out, "template_code");
    append_quoted(&mut out, m.template_code.as_str());
    out.append(",");
    append_member_name(&mut out, "variables");
    let vars = JsonValue::Object(crate::json::duplicate_entries(&m.variables));
    append_object_of(&mut out, &vars, Ghost(m.variables@));
    out.append(",");
    append_member_name(&mut out, "metadata");
    let meta = JsonValue::Object(crate::json::duplicate_entries(&m.metadata));
    append_object_of(&mut out, &meta, Ghost(m.metadata@));
    out.append("}");
    proof {
        assert(out@ =~= message_json(*m));
    }
    out
}

/// Appends an object's JSON text, where the object's members mirror
/// `entries` member by member.
fn append_object_of(
    out: &mut String,
    v: &JsonValue,
    entries: Ghost<Seq<(String, JsonValue)>>,
)
    requires
        v is Object,
        same_entries(v->Object_0@, entries@),
    ensures
        final(out)@ == old(out)@ + seq!['{'] + json_members(entries@) + seq!['}'],
{
    proof {
        lemma_members_congruence(v->Object_0@, entries@);
    }
    append_json(out, v);
}

/// Deeply equal values have the same JSON text.
pub proof fn lemma_json_congruence(a: JsonValue, b: JsonValue)
    requires
        same_json(a, b),
    ensures
        json_of(a) == json_of(b),
    decreases a, 1int,
{
    match (a, b) {
        (JsonValue::Array(x), JsonValue::Array(y)) => {
            lemma_list_congruence(x@, y@);
        },
        (JsonValue::Object(x), JsonValue::Object(y)) => {
            lemma_members_congruence(x@, y@);
        },
        _ => {},
    }
}

/// Elementwise deeply equal arrays have the same JSON text.
proof fn lemma_list_congruence(x: Seq<JsonValue>, y: Seq<JsonValue>)
    requires
        x.len() == y.len(),
        forall|i: int| 0 <= i < x.len() ==> same_json(x[i], y[i]),
    ensures
        json_list(x) == json_list(y),
        json_rest(x) == json_rest(y),
    decreases x, 0int,
{
    if x.len() == 0 {
    } else {
        assert(same_json(x[0], y[0]));
        lemma_json_congruence(x[0], y[0]);
        assert(forall|i: int| 0 <= i < x.skip(1).len() ==> same_json(
            x.skip(1)[i],
            y.skip(1)[i],
        ));
        lemma_list_congruence(x.skip(1), y.skip(1));
    }
}

/// Memberwise deeply equal objects have the same JSON text.
proof fn lemma_members_congruence(x: Seq<(String, JsonValue)>, y: Seq<(String, JsonValue)>)
    requires
        same_entries(x, y),
    ensures
        json_members(x) == json_members(y),
        json_members_rest(x) == json_members_rest(y),
    decreases x, 0int,
{
    if x.len() == 0 {
    } else {
        assert(x[0].0@ == y[0].0@ && same_json(x[0].1, y[0].1));
        lemma_json_congruence(x[0].1, y[0].1);
        assert(forall|i: int| 0 <= i < x.skip(1).len() ==> x.skip(1)[i].0@ == y.skip(1)[i].0@
            && same_json(x.skip(1)[i].1, y.skip(1)[i].1));
        lemma_members_congruence(x.skip(1), y.skip(1));
    }
}

/// The JSON text a dead-letter wrapper is published as.
pub fn dlq_to_json(d: &DlqMessage) -> (r: String)
    ensures
        r@ == dlq_json(*d),
{
    proof {
        reveal_strlit("{");
        reveal_strlit("}");
        reveal_strlit(",");
    }
    let mut out = String::new();
    out.append("{");
    append_member_name(&mut out, "original_message");
    let inner = message_to_json(&d.original_message);
    out.append(inner.as_str());
    out.append(",");
    append_member_name(&mut out, "failure_reason");
    append_quoted(&mut out, d.failure_reason.as_str());
    out.append(",");
    append_member_name(&mut out, "failed_at");
    append_quoted(&mut out, d.failed_at.as_str());
    out.append("}");
    proof {
        assert(out@ =~= dlq_json(*d));
    }
    out
}

} // verus!
