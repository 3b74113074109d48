//! A plain model of JSON values as the worker reads them.
//!
//! Numbers are carried as their canonical decimal text, produced by the
//! JSON parser at the process edge; the worker's logic never does float
//! arithmetic on them.

use vstd::prelude::*;

verus! {

/// A JSON value: the payload of `variables` and `metadata` entries.
pub enum JsonValue {
    Null,
    Bool(bool),
    /// Canonical decimal text of a JSON number.
    Number(String),
    Text(String),
    Array(Vec<JsonValue>),
    Object(Vec<(String, JsonValue)>),
}

/// Deep equality of two JSON values: same shape, and the same text in
/// every string, number and member name.
pub open spec fn same_json(a: JsonValue, b: JsonValue) -> bool
    decreases a,
{
    match (a, b) {
        (JsonValue::Null, JsonValue::Null) => true,
        (JsonValue::Bool(x), JsonValue::Bool(y)) => x == y,
        (JsonValue::Number(x), JsonValue::Number(y)) => x@ == y@,
        (JsonValue::Text(x), JsonValue::Text(y)) => x@ == y@,
        (JsonValue::Array(x), JsonValue::Array(y)) => x@.len() == y@.len() && (forall|i: int|
            0 <= i < x@.len() ==> same_json(x@[i], y@[i])),
        (JsonValue::Object(x), JsonValue::Object(y)) => x@.len() == y@.len() && (forall|i: int|
            0 <= i < x@.len() ==> x@[i].0@ == y@[i].0@ && same_json(x@[i].1, y@[i].1)),
        _ => false,
    }
}

/// Deep equality of two association lists of JSON values, member by
/// member and in order.
pub open spec fn same_entries(a: Seq<(String, JsonValue)>, b: Seq<(String, JsonValue)>) -> bool {
    a.len() == b.len() && forall|i: int|
        0 <= i < a.len() ==> a[i].0@ == b[i].0@ && same_json(a[i].1, b[i].1)
}

impl JsonValue {
    /// Whether this value is a scalar: a string, number, boolean or null.
    pub open spec fn is_scalar(self) -> bool {
        match self {
            JsonValue::Array(_) => false,
            JsonValue::Object(_) => false,
            _ => true,
        }
    }

    /// The text a scalar substitutes into a template: a string raw, a
    /// number as its decimal text, a boolean as `true`/`false`, null as
    /// the empty string. Non-scalars have no text.
    pub open spec fn scalar_text(self) -> Option<Seq<char>> {
        match self {
            JsonValue::Null => Option::Some(Seq::<char>::empty()),
            JsonValue::Bool(b) => Option::Some(if b { "true"@ } else { "false"@ }),
            JsonValue::Number(s) => Option::Some(s@),
            JsonValue::Text(s) => Option::Some(s@),
            JsonValue::Array(_) => Option::None,
            JsonValue::Object(_) => Option::None,
        }
    }

    /// Produces the substitution text of a scalar, or `None` for an
    /// array or object.
    pub fn stringify_scalar(&self) -> (r: Option<String>)
        ensures
            match r {
                Option::Some(s) => self.scalar_text() == Option::Some(s@),
                Option::None => self.scalar_text().is_none(),
            },
    {
        proof {
            reveal_strlit("true");
            reveal_strlit("false");
        }
        match self {
            JsonValue::Null => Option::Some(String::new()),
            JsonValue::Bool(b) => Option::Some(
                if *b {
                    String::from_str("true")
                } else {
                    String::from_str("false")
                },
            ),
            JsonValue::Number(s) => Option::Some(s.clone()),
            JsonValue::Text(s) => Option::Some(s.clone()),
            JsonValue::Array(_) => Option::None,
            JsonValue::Object(_) => Option::None,
        }
    }

    /// A deep copy of this value.
    pub fn duplicate(&self) -> (r: JsonValue)
        ensures
            same_json(r, *self),
        decreases *self,
    {
        match self {
            JsonValue::Null => JsonValue::Null,
            JsonValue::Bool(b) => JsonValue::Bool(*b),
            JsonValue::Number(s) => JsonValue::Number(s.clone()),
            JsonValue::Text(s) => JsonValue::Text(s.clone()),
            JsonValue::Array(items) => {
                let mut out: Vec<JsonValue> = Vec::new();
                let mut i: usize = 0;
                while i < items.len()
                    invariant
                        *self == JsonValue::Array(*items),
                        i <= items.len(),
                        out@.len() == i,
                        forall|k: int| 0 <= k < i ==> same_json(#[trigger] out@[k], items@[k]),
                    decreases items.len() - i,
                {
                    proof {
                        vstd::std_specs::vec::axiom_vec_index_decreases(*items, i as int);
                        assert(self->Array_0 == *items);
                        assert(decreases_to!(*self => self->Array_0));
                    }
                    let item = &items[i];
                    out.push(item.duplicate());
                    i += 1;
                }
                JsonValue::Array(out)
            },
            JsonValue::Object(fields) => {
                let mut out: Vec<(String, JsonValue)> = Vec::new();
                let mut i: usize = 0;
                while i < fields.len()
                    invariant
                        *self == JsonValue::Object(*fields),
                        i <= fields.len(),
                        out@.len() == i,
                        forall|k: int| 0 <= k < i ==> (#[trigger] out@[k]).0@ == fields@[k].0@
                            && same_json(out@[k].1, fields@[k].1),
                    decreases fields.len() - i,
                {
                    proof {
                        vstd::std_specs::vec::axiom_vec_index_decreases(*fields, i as int);
                        assert(self->Object_0 == *fields);
                        assert(decreases_to!(*self => self->Object_0));
                        assert(decreases_to!(fields@[i as int] => fields@[i as int].1));
                    }
                    let name = fields[i].0.clone();
                    let value = fields[i].1.duplicate();
                    out.push((name, value));
                    i += 1;
                }
                JsonValue::Object(out)
            },
        }
    }
}

/// Deep-copies an association list of JSON values.
pub fn duplicate_entries(entries: &Vec<(String, JsonValue)>) -> (r: Vec<(String, JsonValue)>)
    ensures
        same_entries(r@, entries@),
{
    let mut out: Vec<(String, JsonValue)> = Vec::new();
    let mut i: usize = 0;
    while i < entries.len()
        invariant
            i <= entries.len(),
            out@.len() == i,
            forall|k: int| 0 <= k < i ==> (#[trigger] out@[k]).0@ == entries@[k].0@ && same_json(
                out@[k].1,
                entries@[k].1,
            ),
        decreases entries.len() - i,
    {
        let name = entries[i].0.clone();
        let value = entries[i].1.duplicate();
        out.push((name, value));
        i += 1;
    }
    out
}

/// The first value under `key` in an association list, as an object
/// member access finds it.
pub open spec fn assoc_get(entries: Seq<(String, JsonValue)>, key: Seq<char>) -> Option<JsonValue>
    decreases entries.len(),
{
    if entries.len() == 0 {
        Option::None
    } else if entries[0].0@ == key {
        Option::Some(entries[0].1)
    } else {
        assoc_get(entries.skip(1), key)
    }
}

/// Looks up the first entry under `key` in an association list of JSON
/// values, as an object member access does.
pub fn lookup<'a>(entries: &'a Vec<(String, JsonValue)>, key: &str) -> (r: Option<
    &'a JsonValue,
>)
    ensures
        match r {
            Option::Some(v) => assoc_get(entries@, key@) == Option::Some(*v),
            Option::None => assoc_get(entries@, key@).is_none(),
        },
{
    let mut i: usize = 0;
    proof {
        assert(entries@.skip(0) =~= entries@);
    }
    while i < entries.len()
        invariant
            i <= entries@.len(),
            assoc_get(entries@, key@) == assoc_get(entries@.skip(i as int), key@),
        decreases entries@.len() - i,
    {
        let ghost tail = entries@.skip(i as int);
        proof {
            assert(tail[0] == entries@[i as int]);
            assert(tail.skip(1) =~= entries@.skip(i + 1));
        }
        if crate::text::str_eq(entries[i].0.as_str(), key) {
            return Option::Some(&entries[i].1);
        }
        i += 1;
    }
    proof {
        assert(entries@.skip(i as int) =~= Seq::<(String, JsonValue)>::empty());
    }
    Option::None
}

} // verus!
