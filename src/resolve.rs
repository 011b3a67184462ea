//! Resolution of one field's directive into the parts of its fragment:
//! column name, operator, template, index text, and whether it is
//! suppressed or consumes a parameter number.
use vstd::prelude::*;

use crate::dialect::{placeholder, Dialect};
use crate::error::GenError;
use crate::schema::{Directive, FieldDescriptor, GlobalConfig};
use crate::text::{condition_token, contains, contains_token, index_token, name_token};

verus! {

/// The column name: the rename if given, else the field's name.
pub open spec fn resolved_name(f: FieldDescriptor, d: Directive) -> Seq<char> {
    match d.rename {
        Some(r) => r@,
        None => f.name@,
    }
}

/// The comparison operator: the directive's, else `=`.
pub open spec fn resolved_condition(d: Directive) -> Seq<char> {
    match d.condition {
        Some(c) => c@,
        None => seq!['='],
    }
}

/// The default predicate template `{name} {condition} {index}`.
pub open spec fn default_where_template() -> Seq<char> {
    name_token() + seq![' '] + condition_token() + seq![' '] + index_token()
}

/// The default assignment template `{name} = {index}`.
pub open spec fn default_set_template() -> Seq<char> {
    name_token() + seq![' ', '=', ' '] + index_token()
}

/// The predicate template: the directive's `condition_all`, else the default.
pub open spec fn where_template(d: Directive) -> Seq<char> {
    match d.condition_all {
        Some(t) => t@,
        None => default_where_template(),
    }
}

/// The text that stands for `{index}`: the literal value if given, else the
/// placeholder of the fixed index if given, else that of the counter `next`.
pub open spec fn index_text(d: Directive, dialect: Dialect, next: nat) -> Seq<char> {
    match d.value {
        Some(v) => v@,
        None => match d.index {
            Some(k) => placeholder(dialect, k as nat),
            None => placeholder(dialect, next),
        },
    }
}

/// A fragment takes the counter's number only without a literal value and
/// without a fixed index.
pub open spec fn consumes(d: Directive) -> bool {
    d.value is None && d.index is None
}

/// `ignore_none` as it holds for this field.
pub open spec fn effective_ignore_none(d: Directive, cfg: GlobalConfig) -> bool {
    match d.ignore_none {
        Some(b) => b,
        None => cfg.ignore_none,
    }
}

/// The field is optional, its value is absent, and absence suppresses it.
pub open spec fn suppressed(f: FieldDescriptor, d: Directive, present: bool, cfg: GlobalConfig) -> bool {
    f.is_optional && !present && effective_ignore_none(d, cfg)
}

/// The template asks for `{condition}` and the operator is empty.
pub open spec fn condition_missing(template: Seq<char>, d: Directive) -> bool {
    resolved_condition(d).len() == 0 && contains(template, condition_token())
}

/// `e` is the missing-condition failure of the field named `name`.
pub open spec fn names_missing_condition(e: GenError, name: Seq<char>) -> bool {
    match e {
        GenError::MissingCondition(s) => s@ == name,
        _ => false,
    }
}

/// The characters of an optional string.
pub open spec fn opt_view(o: Option<String>) -> Option<Seq<char>> {
    match o {
        Some(s) => Some(s@),
        None => None,
    }
}

/// The column name of `f` under `d`.
pub fn name_of<'a>(f: &'a FieldDescriptor, d: &'a Directive) -> (r: &'a str)
    ensures
        r@ == resolved_name(*f, *d),
{
    match &d.rename {
        Some(r) => r.as_str(),
        None => f.name.as_str(),
    }
}

/// The comparison operator of `d`.
pub fn condition_of<'a>(d: &'a Directive) -> (r: &'a str)
    ensures
        r@ == resolved_condition(*d),
{
    match &d.condition {
        Some(c) => c.as_str(),
        None => {
            proof {
                reveal_strlit("=");
                assert("="@ =~= seq!['=']);
            }
            "="
        },
    }
}

/// The predicate template of `d`.
pub fn where_template_of<'a>(d: &'a Directive) -> (r: &'a str)
    ensures
        r@ == where_template(*d),
{
    match &d.condition_all {
        Some(t) => t.as_str(),
        None => {
            proof {
                reveal_strlit("{name} {condition} {index}");
                assert("{name} {condition} {index}"@ =~= default_where_template());
            }
            "{name} {condition} {index}"
        },
    }
}

/// The assignment template.
pub fn set_template() -> (r: &'static str)
    ensures
        r@ == default_set_template(),
{
    proof {
        reveal_strlit("{name} = {index}");
        assert("{name} = {index}"@ =~= default_set_template());
    }
    "{name} = {index}"
}

/// Whether a fragment under `d` takes the counter's number.
pub fn consumes_of(d: &Directive) -> (r: bool)
    ensures
        r == consumes(*d),
{
    d.value.is_none() && d.index.is_none()
}

/// The text that stands for `{index}` under `d`, with the counter at `next`.
pub fn index_text_of(d: &Directive, dialect: Dialect, next: usize) -> (r: String)
    ensures
        r@ == index_text(*d, dialect, next as nat),
{
    match &d.value {
        Some(v) => v.clone(),
        None => match d.index {
            Some(k) => dialect.placeholder(k),
            None => dialect.placeholder(next),
        },
    }
}

/// Whether `f` is left out for an absent optional value.
pub fn suppressed_of(f: &FieldDescriptor, d: &Directive, present: bool, cfg: &GlobalConfig) -> (r: bool)
    ensures
        r == suppressed(*f, *d, present, *cfg),
{
    let ignore_none = match d.ignore_none {
        Some(b) => b,
        None => cfg.ignore_none,
    };
    f.is_optional && !present && ignore_none
}

/// Whether `template` asks for `{condition}` while `d`'s operator is empty.
pub fn condition_missing_of(template: &str, d: &Directive) -> (r: bool)
    ensures
        r == condition_missing(template@, *d),
{
    let cond = condition_of(d);
    if cond.unicode_len() != 0 {
        return false;
    }
    proof {
        reveal_strlit("{condition}");
        assert("{condition}"@ =~= condition_token());
    }
    contains_token(template, "{condition}")
}

/// The first `i + 1` elements are the first `i` followed by element `i`.
pub proof fn lemma_take_step<A>(s: Seq<A>, i: int)
    requires
        0 <= i < s.len(),
    ensures
        s.take(i + 1).take(i) == s.take(i),
        s.take(i + 1).len() == i + 1,
        s.take(i + 1)[i] == s[i],
        s.take(s.len() as int) == s,
{
    assert(s.take(i + 1).take(i) =~= s.take(i));
    assert(s.take(s.len() as int) =~= s);
}

} // verus!
