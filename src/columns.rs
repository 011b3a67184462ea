//! Column lists for `SELECT`, `RETURNING` and `INSERT`: the name of each
//! field that is not ignored, renamed where asked, in declaration order.
use vstd::prelude::*;

use crate::resolve::{lemma_take_step, name_of, opt_view, resolved_name};
use crate::schema::{views, Directive, FieldDescriptor};

verus! {

/// The entry of field `f` under directive `d`: none when ignored, else the
/// rename or the field's name.
pub open spec fn column_entry(f: FieldDescriptor, d: Option<Directive>) -> Option<Seq<char>> {
    match d {
        None => Some(f.name@),
        Some(d) => if d.ignore {
            None
        } else {
            Some(resolved_name(f, d))
        },
    }
}

/// The directive of `f` for the select list (`select`) or the field list.
pub open spec fn column_directive(f: FieldDescriptor, select: bool) -> Option<Directive> {
    if select {
        f.on_select
    } else {
        f.on_fields
    }
}

/// The entries of `fields` in order.
pub open spec fn column_fold(fields: Seq<FieldDescriptor>, select: bool) -> Seq<Seq<char>>
    decreases fields.len(),
{
    if fields.len() == 0 {
        seq![]
    } else {
        let k = fields.len() - 1;
        let prev = column_fold(fields.take(k), select);
        match column_entry(fields[k], column_directive(fields[k], select)) {
            None => prev,
            Some(t) => prev.push(t),
        }
    }
}

fn column_field(f: &FieldDescriptor, select: bool) -> (r: Option<String>)
    ensures
        opt_view(r) == column_entry(*f, column_directive(*f, select)),
{
    let d = if select {
        &f.on_select
    } else {
        &f.on_fields
    };
    match d {
        None => Some(f.name.clone()),
        Some(d) => if d.ignore {
            None
        } else {
            Some(String::from_str(name_of(f, d)))
        },
    }
}

fn column_list(schema: &Vec<FieldDescriptor>, select: bool) -> (r: Vec<String>)
    ensures
        views(r@) == column_fold(schema@, select),
{
    let n = schema.len();
    let mut out: Vec<String> = Vec::new();
    let mut i: usize = 0;
    assert(views(out@) =~= Seq::<Seq<char>>::empty());
    assert(schema@.take(0).len() == 0);
    while i < n
        invariant
            n == schema@.len(),
            i <= n,
            column_fold(schema@.take(i as int), select) == views(out@),
        decreases n - i,
    {
        proof {
            lemma_take_step(schema@, i as int);
        }
        match column_field(&schema[i], select) {
            None => {},
            Some(s) => {
                let ghost before = out@;
                out.push(s);
                assert(views(out@) =~= views(before).push(s@));
            },
        }
        i = i + 1;
    }
    assert(schema@.take(n as int) =~= schema@);
    out
}

/// The field list of a record type, from each field's `fields` directive.
pub fn fields_clause(schema: &Vec<FieldDescriptor>) -> (r: Vec<String>)
    ensures
        views(r@) == column_fold(schema@, false),
{
    column_list(schema, false)
}

/// The select list of a record type, from each field's `select` directive.
pub fn select_clause(schema: &Vec<FieldDescriptor>) -> (r: Vec<String>)
    ensures
        views(r@) == column_fold(schema@, true),
{
    column_list(schema, true)
}

} // verus!
