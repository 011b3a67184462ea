//! `WHERE` predicates: one per field that is neither ignored nor suppressed,
//! in declaration order, numbered by a running counter.
use vstd::prelude::*;

use crate::error::GenError;
use crate::index::IndexAllocator;
use crate::resolve::{
    condition_missing, condition_missing_of, condition_of, consumes, consumes_of, index_text,
    index_text_of, lemma_take_step, name_of, names_missing_condition, opt_view, resolved_condition,
    resolved_name, suppressed, suppressed_of, where_template, where_template_of,
};
use crate::schema::{default_directive, views, Clause, Directive, FieldDescriptor, GlobalConfig};
use crate::text::{render, render_template};

verus! {

/// A predicate for field `f` under directive `d`, once the field is known to
/// be in the clause: fails on a template that needs a missing operator, is
/// suppressed for an absent optional value, else rendered. Returns the
/// fragment and the counter after it.
pub open spec fn where_render(f: FieldDescriptor, d: Directive, present: bool, cfg: GlobalConfig, next: nat) -> Result<(Option<Seq<char>>, nat), Seq<char>> {
    let t = where_template(d);
    if condition_missing(t, d) {
        Err(f.name@)
    } else if suppressed(f, d, present, cfg) {
        Ok((None, next))
    } else {
        Ok(
            (
                Some(
                    render(
                        t,
                        resolved_name(f, d),
                        resolved_condition(d),
                        index_text(d, cfg.dialect, next),
                    ),
                ),
                if consumes(d) {
                    next + 1
                } else {
                    next
                },
            ),
        )
    }
}

/// The `WHERE` directive in effect for `f`: none when the field is ignored,
/// or carries no directive while such fields are left out.
pub open spec fn where_directive(f: FieldDescriptor, cfg: GlobalConfig) -> Option<Directive> {
    match f.on_where {
        None => if cfg.ignore_fields_without_directive {
            None
        } else {
            Some(default_directive())
        },
        Some(d) => if d.ignore {
            None
        } else {
            Some(d)
        },
    }
}

/// What field `f` contributes to `WHERE` with the counter at `next`, and the
/// counter after it; an error holds the field's name.
pub open spec fn where_step(f: FieldDescriptor, present: bool, cfg: GlobalConfig, next: nat) -> Result<(Option<Seq<char>>, nat), Seq<char>> {
    match where_directive(f, cfg) {
        None => Ok((None, next)),
        Some(d) => where_render(f, d, present, cfg, next),
    }
}

/// The predicates of `fields` in order, and the counter after them, with
/// the counter starting at `start`; or the name of the first field whose
/// template cannot be rendered.
pub open spec fn where_fold(fields: Seq<FieldDescriptor>, present: Seq<bool>, cfg: GlobalConfig, start: nat) -> Result<(Seq<Seq<char>>, nat), Seq<char>>
    decreases fields.len(),
{
    if fields.len() == 0 {
        Ok((seq![], start))
    } else {
        let k = fields.len() - 1;
        match where_fold(fields.take(k), present, cfg, start) {
            Err(e) => Err(e),
            Ok((frags, next)) => match where_step(fields[k], present[k], cfg, next) {
                Err(e) => Err(e),
                Ok((None, after)) => Ok((frags, after)),
                Ok((Some(t), after)) => Ok((frags.push(t), after)),
            },
        }
    }
}

/// `r` is what `WHERE` generation owes for these fields, presence flags and
/// configuration, with the counter starting at `start`.
pub open spec fn where_result(fields: Seq<FieldDescriptor>, present: Seq<bool>, cfg: GlobalConfig, start: nat, r: Result<Clause, GenError>) -> bool {
    match where_fold(fields, present, cfg, start) {
        Ok((frags, next)) => r is Ok && views(r->Ok_0.fragments@) == frags && r->Ok_0.next_index
            == next,
        Err(name) => r is Err && names_missing_condition(r->Err_0, name),
    }
}

proof fn lemma_where_err_persists(fields: Seq<FieldDescriptor>, present: Seq<bool>, cfg: GlobalConfig, start: nat, i: int, name: Seq<char>)
    requires
        0 <= i <= fields.len(),
        where_fold(fields.take(i), present, cfg, start) == Err::<(Seq<Seq<char>>, nat), Seq<char>>(name),
    ensures
        where_fold(fields, present, cfg, start) == Err::<(Seq<Seq<char>>, nat), Seq<char>>(name),
    decreases fields.len() - i,
{
    if i < fields.len() {
        lemma_take_step(fields, i);
        lemma_where_err_persists(fields, present, cfg, start, i + 1, name);
    } else {
        assert(fields.take(i) =~= fields);
    }
}

fn where_fragment(f: &FieldDescriptor, d: &Directive, present: bool, cfg: &GlobalConfig, alloc: &mut IndexAllocator) -> (r: Result<Option<String>, GenError>)
    requires
        old(alloc).current < usize::MAX,
    ensures
        match where_render(*f, *d, present, *cfg, old(alloc).current as nat) {
            Ok((frag, after)) => r is Ok && opt_view(r->Ok_0) == frag && final(alloc).current
                == after,
            Err(name) => r is Err && names_missing_condition(r->Err_0, name),
        },
{
    let template = where_template_of(d);
    if condition_missing_of(template, d) {
        return Err(GenError::MissingCondition(f.name.clone()));
    }
    if suppressed_of(f, d, present, cfg) {
        return Ok(None);
    }
    let consumes = consumes_of(d);
    let n = alloc.next(consumes);
    let idx = index_text_of(d, cfg.dialect, n);
    Ok(Some(render_template(template, name_of(f, d), condition_of(d), idx.as_str())))
}

fn where_field(f: &FieldDescriptor, present: bool, cfg: &GlobalConfig, default_dir: &Directive, alloc: &mut IndexAllocator) -> (r: Result<Option<String>, GenError>)
    requires
        old(alloc).current < usize::MAX,
        *default_dir == default_directive(),
    ensures
        match where_step(*f, present, *cfg, old(alloc).current as nat) {
            Ok((frag, after)) => r is Ok && opt_view(r->Ok_0) == frag && final(alloc).current
                == after,
            Err(name) => r is Err && names_missing_condition(r->Err_0, name),
        },
{
    match &f.on_where {
        None => if cfg.ignore_fields_without_directive {
            Ok(None)
        } else {
            where_fragment(f, default_dir, present, cfg, alloc)
        },
        Some(d) => if d.ignore {
            Ok(None)
        } else {
            where_fragment(f, d, present, cfg, alloc)
        },
    }
}

/// The `WHERE` predicates of a record: `schema` lists its fields in
/// declaration order and `present[i]` tells whether field `i` holds a value.
/// The counter starts at `start`.
pub fn where_clause_from(schema: &Vec<FieldDescriptor>, present: &Vec<bool>, cfg: &GlobalConfig, start: usize) -> (r: Result<Clause, GenError>)
    requires
        present@.len() == schema@.len(),
        start + schema@.len() <= usize::MAX,
    ensures
        where_result(schema@, present@, *cfg, start as nat, r),
{
    let n = schema.len();
    let mut alloc = IndexAllocator::new(start);
    let mut out: Vec<String> = Vec::new();
    let default_dir = Directive::new();
    let mut i: usize = 0;
    assert(views(out@) =~= Seq::<Seq<char>>::empty());
    assert(schema@.take(0).len() == 0);
    while i < n
        invariant
            n == schema@.len(),
            present@.len() == n,
            start + n <= usize::MAX,
            i <= n,
            alloc.current <= start + i,
            default_dir == default_directive(),
            where_fold(schema@.take(i as int), present@, *cfg, start as nat) == Ok::<
                (Seq<Seq<char>>, nat),
                Seq<char>,
            >((views(out@), alloc.current as nat)),
        decreases n - i,
    {
        proof {
            lemma_take_step(schema@, i as int);
        }
        let f = &schema[i];
        let step = where_field(f, present[i], cfg, &default_dir, &mut alloc);
        match step {
            Err(e) => {
                proof {
                    lemma_where_err_persists(schema@, present@, *cfg, start as nat, i + 1, f.name@);
                }
                return Err(e);
            },
            Ok(None) => {},
            Ok(Some(s)) => {
                let ghost before = out@;
                out.push(s);
                assert(views(out@) =~= views(before).push(s@));
            },
        }
        i = i + 1;
    }
    assert(schema@.take(n as int) =~= schema@);
    Ok(Clause { fragments: out, next_index: alloc.current })
}

/// The `WHERE` predicates of a record, numbered from the configured start.
pub fn where_clause(schema: &Vec<FieldDescriptor>, present: &Vec<bool>, cfg: &GlobalConfig) -> (r: Result<Clause, GenError>)
    requires
        present@.len() == schema@.len(),
        cfg.start_index + schema@.len() <= usize::MAX,
    ensures
        where_result(schema@, present@, *cfg, cfg.start_index as nat, r),
{
    where_clause_from(schema, present, cfg, cfg.start_index)
}

} // verus!
