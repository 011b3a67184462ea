//! `SET` assignments, the `WHERE` predicates of fields redirected out of
//! them, and the two together under one running counter.
use vstd::prelude::*;

use crate::error::GenError;
use crate::index::IndexAllocator;
use crate::resolve::{
    condition_missing, condition_missing_of, condition_of, consumes, consumes_of,
    default_set_template, default_where_template, index_text, index_text_of, lemma_take_step,
    name_of, names_missing_condition, opt_view, resolved_condition, resolved_name, set_template,
    suppressed, suppressed_of,
};
use crate::schema::{default_directive, views, Clause, Directive, FieldDescriptor, GlobalConfig};
use crate::text::{render, render_template};

verus! {

/// The `SET` directive in effect for `f`: none when the field is ignored,
/// or carries no directive while such fields are left out.
pub open spec fn set_directive(f: FieldDescriptor, cfg: GlobalConfig) -> Option<Directive> {
    match f.on_set {
        None => if cfg.ignore_fields_without_directive {
            None
        } else {
            Some(default_directive())
        },
        Some(d) => if d.ignore {
            None
        } else {
            Some(d)
        },
    }
}

/// The predicate template of a field redirected to `WHERE`, if it is.
pub open spec fn redirect_template(d: Directive) -> Option<Seq<char>> {
    match d.as_where {
        None => None,
        Some(None) => Some(default_where_template()),
        Some(Some(t)) => Some(t@),
    }
}

/// The field stays in `SET`: not left out by `ignore_set`, nor redirected
/// by the bare flag, nor by a template while the configuration makes a
/// redirect exclusive.
pub open spec fn kept_in_set(d: Directive, cfg: GlobalConfig) -> bool {
    !d.ignore_set && match d.as_where {
        None => true,
        Some(None) => false,
        Some(Some(_)) => !cfg.ignore_set_and_where_conflict,
    }
}

/// The field's redirect template needs an operator that is empty.
pub open spec fn redirect_invalid(d: Directive) -> bool {
    match redirect_template(d) {
        Some(t) => condition_missing(t, d),
        None => false,
    }
}

/// What field `f` contributes to `SET` with the counter at `next`, and the
/// counter after it; an error holds the field's name.
pub open spec fn set_step(f: FieldDescriptor, present: bool, cfg: GlobalConfig, next: nat) -> Result<(Option<Seq<char>>, nat), Seq<char>> {
    match set_directive(f, cfg) {
        None => Ok((None, next)),
        Some(d) => if redirect_invalid(d) {
            Err(f.name@)
        } else if !kept_in_set(d, cfg) || suppressed(f, d, present, cfg) {
            Ok((None, next))
        } else {
            Ok(
                (
                    Some(
                        render(
                            default_set_template(),
                            resolved_name(f, d),
                            resolved_condition(d),
                            index_text(d, cfg.dialect, next),
                        ),
                    ),
                    if consumes(d) {
                        next + 1
                    } else {
                        next
                    },
                ),
            )
        },
    }
}

/// What a field redirected out of `SET` contributes to `WHERE`.
pub open spec fn redirect_step(f: FieldDescriptor, present: bool, cfg: GlobalConfig, next: nat) -> (Option<Seq<char>>, nat) {
    match set_directive(f, cfg) {
        None => (None, next),
        Some(d) => match redirect_template(d) {
            None => (None, next),
            Some(t) => if suppressed(f, d, present, cfg) {
                (None, next)
            } else {
                (
                    Some(
                        render(
                            t,
                            resolved_name(f, d),
                            resolved_condition(d),
                            index_text(d, cfg.dialect, next),
                        ),
                    ),
                    if consumes(d) {
                        next + 1
                    } else {
                        next
                    },
                )
            },
        },
    }
}

/// The assignments of `fields` in order and the counter after them, from
/// `start`; or the name of the first field with an unrenderable template.
pub open spec fn set_fold(fields: Seq<FieldDescriptor>, present: Seq<bool>, cfg: GlobalConfig, start: nat) -> Result<(Seq<Seq<char>>, nat), Seq<char>>
    decreases fields.len(),
{
    if fields.len() == 0 {
        Ok((seq![], start))
    } else {
        let k = fields.len() - 1;
        match set_fold(fields.take(k), present, cfg, start) {
            Err(e) => Err(e),
            Ok((frags, next)) => match set_step(fields[k], present[k], cfg, next) {
                Err(e) => Err(e),
                Ok((None, after)) => Ok((frags, after)),
                Ok((Some(t), after)) => Ok((frags.push(t), after)),
            },
        }
    }
}

/// The predicates of the redirected fields in order, and the counter after
/// them, from `start`.
pub open spec fn redirect_fold(fields: Seq<FieldDescriptor>, present: Seq<bool>, cfg: GlobalConfig, start: nat) -> (Seq<Seq<char>>, nat)
    decreases fields.len(),
{
    if fields.len() == 0 {
        (seq![], start)
    } else {
        let k = fields.len() - 1;
        let (frags, next) = redirect_fold(fields.take(k), present, cfg, start);
        match redirect_step(fields[k], present[k], cfg, next) {
            (None, after) => (frags, after),
            (Some(t), after) => (frags.push(t), after),
        }
    }
}

/// `SET` then `WHERE` under one counter from the configured start: the
/// predicates continue the numbering where the assignments stopped.
pub open spec fn set_and_where_fold(fields: Seq<FieldDescriptor>, present: Seq<bool>, cfg: GlobalConfig) -> Result<(Seq<Seq<char>>, Seq<Seq<char>>, nat), Seq<char>> {
    match set_fold(fields, present, cfg, cfg.start_index as nat) {
        Err(e) => Err(e),
        Ok((sets, next)) => {
            let (wheres, after) = redirect_fold(fields, present, cfg, next);
            Ok((sets, wheres, after))
        },
    }
}

/// `r` is what `SET` generation owes, with the counter from `start`.
pub open spec fn set_result(fields: Seq<FieldDescriptor>, present: Seq<bool>, cfg: GlobalConfig, start: nat, r: Result<Clause, GenError>) -> bool {
    match set_fold(fields, present, cfg, start) {
        Ok((frags, next)) => r is Ok && views(r->Ok_0.fragments@) == frags && r->Ok_0.next_index
            == next,
        Err(name) => r is Err && names_missing_condition(r->Err_0, name),
    }
}

/// `r` is what combined `SET` and `WHERE` generation owes.
pub open spec fn set_and_where_result(fields: Seq<FieldDescriptor>, present: Seq<bool>, cfg: GlobalConfig, r: Result<(Clause, Clause), GenError>) -> bool {
    match set_and_where_fold(fields, present, cfg) {
        Ok((sets, wheres, after)) => r is Ok && views(r->Ok_0.0.fragments@) == sets && views(
            r->Ok_0.1.fragments@,
        ) == wheres && r->Ok_0.1.next_index == after && r->Ok_0.0.next_index == (match set_fold(
            fields,
            present,
            cfg,
            cfg.start_index as nat,
        ) {
            Ok((_, next)) => next,
            Err(_) => 0,
        }),
        Err(name) => r is Err && names_missing_condition(r->Err_0, name),
    }
}

proof fn lemma_set_err_persists(fields: Seq<FieldDescriptor>, present: Seq<bool>, cfg: GlobalConfig, start: nat, i: int, name: Seq<char>)
    requires
        0 <= i <= fields.len(),
        set_fold(fields.take(i), present, cfg, start) == Err::<(Seq<Seq<char>>, nat), Seq<char>>(name),
    ensures
        set_fold(fields, present, cfg, start) == Err::<(Seq<Seq<char>>, nat), Seq<char>>(name),
    decreases fields.len() - i,
{
    if i < fields.len() {
        lemma_take_step(fields, i);
        lemma_set_err_persists(fields, present, cfg, start, i + 1, name);
    } else {
        assert(fields.take(i) =~= fields);
    }
}

fn set_directive_of<'a>(f: &'a FieldDescriptor, cfg: &GlobalConfig, default_dir: &'a Directive) -> (r: Option<&'a Directive>)
    requires
        *default_dir == default_directive(),
    ensures
        match set_directive(*f, *cfg) {
            None => r is None,
            Some(d) => r is Some && *r->0 == d,
        },
{
    match &f.on_set {
        None => if cfg.ignore_fields_without_directive {
            None
        } else {
            Some(default_dir)
        },
        Some(d) => if d.ignore {
            None
        } else {
            Some(d)
        },
    }
}

fn redirect_template_of<'a>(d: &'a Directive) -> (r: Option<&'a str>)
    ensures
        match redirect_template(*d) {
            None => r is None,
            Some(t) => r is Some && r->0@ == t,
        },
{
    match &d.as_where {
        None => None,
        Some(None) => {
            proof {
                reveal_strlit("{name} {condition} {index}");
                assert("{name} {condition} {index}"@ =~= default_where_template());
            }
            Some("{name} {condition} {index}")
        },
        Some(Some(t)) => Some(t.as_str()),
    }
}

fn set_field(f: &FieldDescriptor, present: bool, cfg: &GlobalConfig, default_dir: &Directive, alloc: &mut IndexAllocator) -> (r: Result<Option<String>, GenError>)
    requires
        old(alloc).current < usize::MAX,
        *default_dir == default_directive(),
    ensures
        match set_step(*f, present, *cfg, old(alloc).current as nat) {
            Ok((frag, after)) => r is Ok && opt_view(r->Ok_0) == frag && final(alloc).current
                == after,
            Err(name) => r is Err && names_missing_condition(r->Err_0, name),
        },
{
    let d = match set_directive_of(f, cfg, default_dir) {
        None => return Ok(None),
        Some(d) => d,
    };
    match redirect_template_of(d) {
        Some(t) => if condition_missing_of(t, d) {
            return Err(GenError::MissingCondition(f.name.clone()));
        },
        None => {},
    }
    let kept = !d.ignore_set && match &d.as_where {
        None => true,
        Some(None) => false,
        Some(Some(_)) => !cfg.ignore_set_and_where_conflict,
    };
    if !kept || suppressed_of(f, d, present, cfg) {
        return Ok(None);
    }
    let n = alloc.next(consumes_of(d));
    let idx = index_text_of(d, cfg.dialect, n);
    Ok(Some(render_template(set_template(), name_of(f, d), condition_of(d), idx.as_str())))
}

fn redirect_field(f: &FieldDescriptor, present: bool, cfg: &GlobalConfig, default_dir: &Directive, alloc: &mut IndexAllocator) -> (r: Option<String>)
    requires
        old(alloc).current < usize::MAX,
        *default_dir == default_directive(),
    ensures
        opt_view(r) == redirect_step(*f, present, *cfg, old(alloc).current as nat).0,
        final(alloc).current == redirect_step(*f, present, *cfg, old(alloc).current as nat).1,
{
    let d = match set_directive_of(f, cfg, default_dir) {
        None => return None,
        Some(d) => d,
    };
    let t = match redirect_template_of(d) {
        None => return None,
        Some(t) => t,
    };
    if suppressed_of(f, d, present, cfg) {
        return None;
    }
    let n = alloc.next(consumes_of(d));
    let idx = index_text_of(d, cfg.dialect, n);
    Some(render_template(t, name_of(f, d), condition_of(d), idx.as_str()))
}

/// The `SET` assignments of a record, with the counter from `start`.
pub fn set_clause_from(schema: &Vec<FieldDescriptor>, present: &Vec<bool>, cfg: &GlobalConfig, start: usize) -> (r: Result<Clause, GenError>)
    requires
        present@.len() == schema@.len(),
        start + schema@.len() <= usize::MAX,
    ensures
        set_result(schema@, present@, *cfg, start as nat, r),
{
    let n = schema.len();
    let mut alloc = IndexAllocator::new(start);
    let mut out: Vec<String> = Vec::new();
    let default_dir = Directive::new();
    let mut i: usize = 0;
    assert(views(out@) =~= Seq::<Seq<char>>::empty());
    assert(schema@.take(0).len() == 0);
    while i < n
        invariant
            n == schema@.len(),
            present@.len() == n,
            start + n <= usize::MAX,
            i <= n,
            alloc.current <= start + i,
            default_dir == default_directive(),
            set_fold(schema@.take(i as int), present@, *cfg, start as nat) == Ok::<
                (Seq<Seq<char>>, nat),
                Seq<char>,
            >((views(out@), alloc.current as nat)),
        decreases n - i,
    {
        proof {
            lemma_take_step(schema@, i as int);
        }
        let f = &schema[i];
        match set_field(f, present[i], cfg, &default_dir, &mut alloc) {
            Err(e) => {
                proof {
                    lemma_set_err_persists(schema@, present@, *cfg, start as nat, i + 1, f.name@);
                }
                return Err(e);
            },
            Ok(None) => {},
            Ok(Some(s)) => {
                let ghost before = out@;
                out.push(s);
                assert(views(out@) =~= views(before).push(s@));
            },
        }
        i = i + 1;
    }
    assert(schema@.take(n as int) =~= schema@);
    Ok(Clause { fragments: out, next_index: alloc.current })
}

/// The `WHERE` predicates of the fields redirected out of `SET`, with the
/// counter from `start`.
pub fn set_redirect_clause_from(schema: &Vec<FieldDescriptor>, present: &Vec<bool>, cfg: &GlobalConfig, start: usize) -> (r: Clause)
    requires
        present@.len() == schema@.len(),
        start + schema@.len() <= usize::MAX,
    ensures
        views(r.fragments@) == redirect_fold(schema@, present@, *cfg, start as nat).0,
        r.next_index == redirect_fold(schema@, present@, *cfg, start as nat).1,
{
    let n = schema.len();
    let mut alloc = IndexAllocator::new(start);
    let mut out: Vec<String> = Vec::new();
    let default_dir = Directive::new();
    let mut i: usize = 0;
    assert(views(out@) =~= Seq::<Seq<char>>::empty());
    assert(schema@.take(0).len() == 0);
    while i < n
        invariant
            n == schema@.len(),
            present@.len() == n,
            start + n <= usize::MAX,
            i <= n,
            alloc.current <= start + i,
            default_dir == default_directive(),
            redirect_fold(schema@.take(i as int), present@, *cfg, start as nat) == (
                views(out@),
                alloc.current as nat,
            ),
        decreases n - i,
    {
        proof {
            lemma_take_step(schema@, i as int);
        }
        let f = &schema[i];
        match redirect_field(f, present[i], cfg, &default_dir, &mut alloc) {
            None => {},
            Some(s) => {
                let ghost before = out@;
                out.push(s);
                assert(views(out@) =~= views(before).push(s@));
            },
        }
        i = i + 1;
    }
    assert(schema@.take(n as int) =~= schema@);
    Clause { fragments: out, next_index: alloc.current }
}

/// The `SET` assignments of a record, numbered from the configured start.
pub fn set_clause(schema: &Vec<FieldDescriptor>, present: &Vec<bool>, cfg: &GlobalConfig) -> (r: Result<Clause, GenError>)
    requires
        present@.len() == schema@.len(),
        cfg.start_index + schema@.len() <= usize::MAX,
    ensures
        set_result(schema@, present@, *cfg, cfg.start_index as nat, r),
{
    set_clause_from(schema, present, cfg, cfg.start_index)
}

/// The `SET` assignments and the redirected `WHERE` predicates of a record,
/// under one counter: assignments first, from the configured start, then
/// predicates, from where the assignments left it.
pub fn set_and_where_clause(schema: &Vec<FieldDescriptor>, present: &Vec<bool>, cfg: &GlobalConfig) -> (r: Result<(Clause, Clause), GenError>)
    requires
        present@.len() == schema@.len(),
        cfg.start_index + 2 * schema@.len() <= usize::MAX,
    ensures
        set_and_where_result(schema@, present@, *cfg, r),
{
    let sets = match set_clause_from(schema, present, cfg, cfg.start_index) {
        Err(e) => return Err(e),
        Ok(c) => c,
    };
    proof {
        lemma_set_counter_bound(schema@, present@, *cfg, cfg.start_index as nat);
    }
    let wheres = set_redirect_clause_from(schema, present, cfg, sets.next_index);
    Ok((sets, wheres))
}

/// `SET` generation moves the counter by at most one per field.
proof fn lemma_set_counter_bound(fields: Seq<FieldDescriptor>, present: Seq<bool>, cfg: GlobalConfig, start: nat)
    ensures
        set_fold(fields, present, cfg, start) matches Ok((_, next)) ==> start <= next <= start
            + fields.len(),
    decreases fields.len(),
{
    if fields.len() > 0 {
        let k = fields.len() - 1;
        lemma_set_counter_bound(fields.take(k), present, cfg, start);
    }
}

} // verus!
