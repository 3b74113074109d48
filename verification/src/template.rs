//! Templates and placeholder substitution.
//!
//! A template's title and body may hold `{{name}}` placeholders. Rendering
//! replaces every occurrence of each variable's placeholder by the
//! variable's scalar text, in the order the variables are given, and then
//! fails if any `{{...}}` span is still present.

use vstd::prelude::*;

use crate::json::JsonValue;
use crate::text::{find_from, replace_all, find_str_from, replace_str};

verus! {

/// A notification template as the template service serves it.
pub struct Template {
    pub id: String,
    pub code: String,
    pub template_type: String,
    pub language: String,
    pub version: i32,
    pub content: TemplateContent,
    pub variables: Vec<String>,
}

/// The renderable part of a template.
pub struct TemplateContent {
    pub title: String,
    pub body: String,
}

/// Why rendering failed.
pub enum RenderError {
    /// A variable's value is an array or object; the field names the
    /// variable.
    UnsupportedType(String),
    /// A `{{...}}` span survived substitution; the field holds it.
    MissingVariable(String),
}

impl RenderError {
    /// What this failure's description says.
    pub open spec fn spec_message(self) -> Seq<char> {
        match self {
            RenderError::UnsupportedType(k) => "Unsupported variable type for key '"@ + k@ + "'"@,
            RenderError::MissingVariable(p) => "Missing variable in template: "@ + p@,
        }
    }

    /// Describes this failure.
    pub fn message(&self) -> (r: String)
        ensures
            r@ == self.spec_message(),
    {
        match self {
            RenderError::UnsupportedType(k) => String::from_str(
                "Unsupported variable type for key '",
            ).concat(k.as_str()).concat("'"),
            RenderError::MissingVariable(p) => String::from_str(
                "Missing variable in template: ",
            ).concat(p.as_str()),
        }
    }
}

/// The placeholder text of a variable name.
pub open spec fn placeholder_of(key: Seq<char>) -> Seq<char> {
    "{{"@ + key + "}}"@
}

/// The text after substituting the variables into `s`, in order. A
/// non-scalar value substitutes nothing; `substitute` is only applied
/// when every value is a scalar.
pub open spec fn substitute(s: Seq<char>, vars: Seq<(String, JsonValue)>) -> Seq<char>
    decreases vars.len(),
{
    if vars.len() == 0 {
        s
    } else {
        let head = vars[0];
        let s1 = match head.1.scalar_text() {
            Option::Some(t) => replace_all(s, placeholder_of(head.0@), t),
            Option::None => s,
        };
        substitute(s1, vars.skip(1))
    }
}

/// The first variable whose value is not a scalar, if any.
pub open spec fn first_non_scalar(vars: Seq<(String, JsonValue)>) -> Option<int>
    decreases vars.len(),
{
    if vars.len() == 0 {
        Option::None
    } else if !vars[0].1.is_scalar() {
        Option::Some(0)
    } else {
        match first_non_scalar(vars.skip(1)) {
            Option::Some(i) => Option::Some(i + 1),
            Option::None => Option::None,
        }
    }
}

/// The first unresolved `{{...}}` span of `s`: from the first `{{` to the
/// end of the next `}}` after it.
pub open spec fn unresolved(s: Seq<char>) -> Option<Seq<char>> {
    match find_from(s, "{{"@, 0) {
        Option::None => Option::None,
        Option::Some(p) => match find_from(s, "}}"@, p) {
            Option::None => Option::None,
            Option::Some(q) => Option::Some(s.subrange(p, q + 2)),
        },
    }
}

/// Substituting one more variable at the end extends the fold by one
/// replacement.
proof fn lemma_substitute_push(s: Seq<char>, vars: Seq<(String, JsonValue)>, x: (
    String,
    JsonValue,
))
    ensures
        substitute(s, vars.push(x)) == (match x.1.scalar_text() {
            Option::Some(t) => replace_all(substitute(s, vars), placeholder_of(x.0@), t),
            Option::None => substitute(s, vars),
        }),
    decreases vars.len(),
{
    if vars.len() == 0 {
        assert(vars.push(x)[0] == x);
        assert(vars.push(x).skip(1) =~= Seq::<(String, JsonValue)>::empty());
        let s1 = match x.1.scalar_text() {
            Option::Some(t) => replace_all(s, placeholder_of(x.0@), t),
            Option::None => s,
        };
        assert(substitute(s, vars) == s);
        assert(substitute(s, vars.push(x)) == substitute(s1, vars.push(x).skip(1)));
        assert(substitute(s1, vars.push(x).skip(1)) == s1);
    } else {
        assert(vars.push(x)[0] == vars[0]);
        assert(vars.push(x).skip(1) =~= vars.skip(1).push(x));
        let s1 = match vars[0].1.scalar_text() {
            Option::Some(t) => replace_all(s, placeholder_of(vars[0].0@), t),
            Option::None => s,
        };
        assert(substitute(s, vars.push(x)) == substitute(s1, vars.push(x).skip(1)));
        assert(substitute(s, vars) == substitute(s1, vars.skip(1)));
        lemma_substitute_push(s1, vars.skip(1), x);
    }
}

/// Replaces each variable's placeholder in `s` by the variable's scalar
/// text, in order; rejects the first variable holding an array or an
/// object; after substitution, rejects the text if a `{{...}}` span
/// remains, naming the first such span.
pub fn replace_variables(s: &str, variables: &Vec<(String, JsonValue)>) -> (r: Result<
    String,
    RenderError,
>)
    ensures
        match r {
            Ok(out) => first_non_scalar(variables@).is_none() && out@ == substitute(
                s@,
                variables@,
            ) && unresolved(out@).is_none(),
            Err(RenderError::UnsupportedType(k)) => exists|i: int|
                first_non_scalar(variables@) == Option::Some(i) && k@ == variables@[i].0@,
            Err(RenderError::MissingVariable(p)) => first_non_scalar(variables@).is_none()
                && unresolved(substitute(s@, variables@)) == Option::Some(p@),
        },
{
    proof {
        reveal_strlit("{{");
        reveal_strlit("}}");
    }
    let mut result = String::from_str(s);
    let mut j: usize = 0;
    proof {
        assert(variables@.take(0) =~= Seq::<(String, JsonValue)>::empty());
    }
    while j < variables.len()
        invariant
            j <= variables@.len(),
            "{{"@.len() == 2 && "}}"@.len() == 2,
            "{{"@[0] == '{' && "{{"@[1] == '{' && "}}"@[0] == '}' && "}}"@[1] == '}',
            result@ == substitute(s@, variables@.take(j as int)),
            first_non_scalar(variables@.take(j as int)).is_none(),
        decreases variables@.len() - j,
    {
        let key = &variables[j].0;
        let value = &variables[j].1;
        let ghost prefix = variables@.take(j as int);
        proof {
            assert(variables@.take(j + 1) =~= prefix.push(variables@[j as int]));
            lemma_substitute_push(s@, prefix, variables@[j as int]);
            lemma_first_non_scalar_push(prefix, variables@[j as int]);
        }
        match value.stringify_scalar() {
            Option::None => {
                proof {
                    lemma_first_non_scalar_extends(variables@, j as int);
                }
                return Err(RenderError::UnsupportedType(key.clone()));
            },
            Option::Some(text) => {
                let pat = String::from_str("{{").concat(key.as_str()).concat("}}");
                proof {
                    assert(pat@ == placeholder_of(key@));
                    assert(pat@.len() >= 1);
                }
                result = replace_str(result.as_str(), pat.as_str(), text.as_str());
            },
        }
        j += 1;
    }
    proof {
        assert(variables@.take(variables@.len() as int) =~= variables@);
    }
    let rlen = result.unicode_len();
    match find_str_from(result.as_str(), "{{", 0) {
        Option::None => Ok(result),
        Option::Some(p) => {
            match find_str_from(result.as_str(), "}}", p) {
                Option::None => Ok(result),
                Option::Some(q) => {
                    proof {
                        assert(q + 2 <= rlen);
                    }
                    let span = result.substring_char(p, q + 2);
                    Err(RenderError::MissingVariable(String::from_str(span)))
                },
            }
        },
    }
}

/// A prefix with only scalars stays scalar-only when a scalar is pushed,
/// and the pushed element is first otherwise.
proof fn lemma_first_non_scalar_push(vars: Seq<(String, JsonValue)>, x: (String, JsonValue))
    requires
        first_non_scalar(vars).is_none(),
    ensures
        x.1.is_scalar() ==> first_non_scalar(vars.push(x)).is_none(),
        !x.1.is_scalar() ==> first_non_scalar(vars.push(x)) == Option::Some(vars.len() as int),
    decreases vars.len(),
{
    if vars.len() == 0 {
        assert(vars.push(x)[0] == x);
        assert(vars.push(x).skip(1) =~= Seq::<(String, JsonValue)>::empty());
        if x.1.is_scalar() {
            assert(first_non_scalar(vars.push(x).skip(1)).is_none());
        }
    } else {
        assert(vars.push(x)[0] == vars[0]);
        assert(vars.push(x).skip(1) =~= vars.skip(1).push(x));
        assert(first_non_scalar(vars) == match first_non_scalar(vars.skip(1)) {
            Option::Some(i) => Option::Some(i + 1),
            Option::None => Option::<int>::None,
        });
        assert(first_non_scalar(vars.skip(1)).is_none());
        lemma_first_non_scalar_push(vars.skip(1), x);
    }
}

/// If the first `j` variables are scalars and the `j`-th is not, then the
/// `j`-th is the first non-scalar of the whole sequence.
proof fn lemma_first_non_scalar_extends(vars: Seq<(String, JsonValue)>, j: int)
    requires
        0 <= j < vars.len(),
        first_non_scalar(vars.take(j)).is_none(),
        !vars[j].1.is_scalar(),
    ensures
        first_non_scalar(vars) == Option::Some(j),
    decreases vars.len(),
{
    if j == 0 {
    } else {
        assert(vars.take(j)[0] == vars[0]);
        assert(vars[0].1.is_scalar());
        assert(vars.take(j).skip(1) =~= vars.skip(1).take(j - 1));
        assert(vars.skip(1)[j - 1] == vars[j]);
        lemma_first_non_scalar_extends(vars.skip(1), j - 1);
    }
}

/// Renders a template's title and body against the given variables: the
/// title is rendered first, and its failure is reported before the
/// body's.
pub fn render_template(template: &Template, variables: &Vec<(String, JsonValue)>) -> (r:
    Result<TemplateContent, RenderError>)
    ensures
        match r {
            Ok(out) => {
                &&& first_non_scalar(variables@).is_none()
                &&& out.title@ == substitute(template.content.title@, variables@)
                &&& out.body@ == substitute(template.content.body@, variables@)
                &&& unresolved(out.title@).is_none()
                &&& unresolved(out.body@).is_none()
            },
            Err(RenderError::UnsupportedType(k)) => exists|i: int|
                first_non_scalar(variables@) == Option::Some(i) && k@ == variables@[i].0@,
            Err(RenderError::MissingVariable(p)) => first_non_scalar(variables@).is_none() && (
            match unresolved(substitute(template.content.title@, variables@)) {
                Option::Some(t) => p@ == t,
                Option::None => unresolved(substitute(template.content.body@, variables@))
                    == Option::Some(p@),
            }),
        },
{
    let title = match replace_variables(template.content.title.as_str(), variables) {
        Ok(t) => t,
        Err(e) => {
            return Err(e);
        },
    };
    let body = match replace_variables(template.content.body.as_str(), variables) {
        Ok(b) => b,
        Err(e) => {
            return Err(e);
        },
    };
    Ok(TemplateContent { title, body })
}

} // verus!
