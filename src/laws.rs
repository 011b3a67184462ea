//! Properties that hold of every generation call, stated over the
//! specifications that the generators meet and proved from them.
use vstd::prelude::*;

use crate::columns::{column_directive, column_entry, column_fold};
use crate::dialect::Dialect;
use crate::error::GenError;
use crate::resolve::{
    condition_missing, consumes, effective_ignore_none, lemma_take_step, suppressed, where_template,
};
use crate::schema::{views, Clause, Directive, FieldDescriptor, GlobalConfig};
use crate::set_clause::{
    kept_in_set, redirect_fold, redirect_invalid, redirect_step, redirect_template,
    set_and_where_fold, set_and_where_result, set_directive, set_fold, set_result, set_step,
};
use crate::values_clause::{values_fold, values_step};
use crate::where_clause::{where_directive, where_fold, where_result, where_step};

verus! {

/// The number of fields, among `fields`, for which `pred` holds of the field
/// and its presence flag.
pub open spec fn count_fields(fields: Seq<FieldDescriptor>, present: Seq<bool>, pred: spec_fn(FieldDescriptor, bool) -> bool) -> nat
    decreases fields.len(),
{
    if fields.len() == 0 {
        0
    } else {
        let k = fields.len() - 1;
        count_fields(fields.take(k), present, pred) + if pred(fields[k], present[k]) {
            1nat
        } else {
            0nat
        }
    }
}

/// Field `f` takes a number from the counter in `VALUES`.
pub open spec fn values_consuming(f: FieldDescriptor) -> bool {
    match f.on_values {
        None => true,
        Some(d) => !d.ignore && d.index is None && d.value is None,
    }
}

/// Field `f` takes a number from the counter in `WHERE`.
pub open spec fn where_consuming(f: FieldDescriptor, present: bool, cfg: GlobalConfig) -> bool {
    match where_directive(f, cfg) {
        None => false,
        Some(d) => !condition_missing(where_template(d), d) && !suppressed(f, d, present, cfg)
            && consumes(d),
    }
}

/// Field `f` takes a number from the counter in `SET`.
pub open spec fn set_consuming(f: FieldDescriptor, present: bool, cfg: GlobalConfig) -> bool {
    match set_directive(f, cfg) {
        None => false,
        Some(d) => !redirect_invalid(d) && kept_in_set(d, cfg) && !suppressed(f, d, present, cfg)
            && consumes(d),
    }
}

/// Field `f`, redirected out of `SET`, takes a number from the counter in
/// `WHERE`.
pub open spec fn redirect_consuming(f: FieldDescriptor, present: bool, cfg: GlobalConfig) -> bool {
    match set_directive(f, cfg) {
        None => false,
        Some(d) => redirect_template(d) is Some && !suppressed(f, d, present, cfg) && consumes(d),
    }
}

// ---- Determinism -------------------------------------------------------

/// `WHERE` generation is a function of schema, record and configuration:
/// two results that both meet its contract agree.
pub proof fn lemma_where_deterministic(fields: Seq<FieldDescriptor>, present: Seq<bool>, cfg: GlobalConfig, start: nat, r1: Result<Clause, GenError>, r2: Result<Clause, GenError>)
    requires
        where_result(fields, present, cfg, start, r1),
        where_result(fields, present, cfg, start, r2),
    ensures
        r1 is Ok <==> r2 is Ok,
        r1 is Ok ==> views(r1->Ok_0.fragments@) == views(r2->Ok_0.fragments@)
            && r1->Ok_0.next_index == r2->Ok_0.next_index,
        r1 is Err ==> r1->Err_0 is MissingCondition && r2->Err_0 is MissingCondition
            && r1->Err_0->MissingCondition_0@ == r2->Err_0->MissingCondition_0@,
{
}

/// `SET` generation is a function of schema, record and configuration.
pub proof fn lemma_set_deterministic(fields: Seq<FieldDescriptor>, present: Seq<bool>, cfg: GlobalConfig, start: nat, r1: Result<Clause, GenError>, r2: Result<Clause, GenError>)
    requires
        set_result(fields, present, cfg, start, r1),
        set_result(fields, present, cfg, start, r2),
    ensures
        r1 is Ok <==> r2 is Ok,
        r1 is Ok ==> views(r1->Ok_0.fragments@) == views(r2->Ok_0.fragments@)
            && r1->Ok_0.next_index == r2->Ok_0.next_index,
        r1 is Err ==> r1->Err_0 is MissingCondition && r2->Err_0 is MissingCondition
            && r1->Err_0->MissingCondition_0@ == r2->Err_0->MissingCondition_0@,
{
}

/// Combined `SET` and `WHERE` generation is a function of schema, record and
/// configuration.
pub proof fn lemma_set_and_where_deterministic(fields: Seq<FieldDescriptor>, present: Seq<bool>, cfg: GlobalConfig, r1: Result<(Clause, Clause), GenError>, r2: Result<(Clause, Clause), GenError>)
    requires
        set_and_where_result(fields, present, cfg, r1),
        set_and_where_result(fields, present, cfg, r2),
    ensures
        r1 is Ok <==> r2 is Ok,
        r1 is Ok ==> views(r1->Ok_0.0.fragments@) == views(r2->Ok_0.0.fragments@) && views(
            r1->Ok_0.1.fragments@,
        ) == views(r2->Ok_0.1.fragments@) && r1->Ok_0.0.next_index == r2->Ok_0.0.next_index
            && r1->Ok_0.1.next_index == r2->Ok_0.1.next_index,
        r1 is Err ==> r1->Err_0 is MissingCondition && r2->Err_0 is MissingCondition
            && r1->Err_0->MissingCondition_0@ == r2->Err_0->MissingCondition_0@,
{
}

/// `VALUES`, field-list and select-list generation are functions of the
/// schema and configuration: two results that meet their contracts agree.
pub proof fn lemma_schema_clauses_deterministic(fields: Seq<FieldDescriptor>, cfg: GlobalConfig, v1: Clause, v2: Clause, c1: Seq<String>, c2: Seq<String>, select: bool)
    requires
        views(v1.fragments@) == values_fold(fields, cfg.dialect, cfg.start_index as nat).0,
        v1.next_index == values_fold(fields, cfg.dialect, cfg.start_index as nat).1,
        views(v2.fragments@) == values_fold(fields, cfg.dialect, cfg.start_index as nat).0,
        v2.next_index == values_fold(fields, cfg.dialect, cfg.start_index as nat).1,
        views(c1) == column_fold(fields, select),
        views(c2) == column_fold(fields, select),
    ensures
        views(v1.fragments@) == views(v2.fragments@),
        v1.next_index == v2.next_index,
        views(c1) == views(c2),
{
}

// ---- Index monotonicity --------------------------------------------------

/// The number of fields among `fields` that take a number in `VALUES`.
pub open spec fn values_consumers(fields: Seq<FieldDescriptor>) -> nat
    decreases fields.len(),
{
    if fields.len() == 0 {
        0
    } else {
        let k = fields.len() - 1;
        values_consumers(fields.take(k)) + if values_consuming(fields[k]) {
            1nat
        } else {
            0nat
        }
    }
}

/// In `VALUES` each field moves the counter by one exactly when it consumes,
/// so after any run of fields the counter is the start plus the number of
/// consuming fields among them: the numbers taken are `start, start + 1, ...`
/// in field order.
pub proof fn lemma_values_counter(fields: Seq<FieldDescriptor>, dialect: Dialect, start: nat)
    ensures
        values_fold(fields, dialect, start).1 == start + values_consumers(fields),
        forall|f: FieldDescriptor, next: nat|
            #![trigger values_step(f, dialect, next)]
            values_step(f, dialect, next).1 == next + if values_consuming(f) {
                1nat
            } else {
                0nat
            },
    decreases fields.len(),
{
    if fields.len() > 0 {
        lemma_values_counter(fields.take(fields.len() - 1), dialect, start);
    }
}

/// In `WHERE` each field moves the counter by one exactly when it consumes,
/// so after any run of fields that renders, the counter is the start plus the
/// number of consuming fields among them.
pub proof fn lemma_where_counter(fields: Seq<FieldDescriptor>, present: Seq<bool>, cfg: GlobalConfig, start: nat)
    requires
        fields.len() <= present.len(),
    ensures
        where_fold(fields, present, cfg, start) matches Ok((_, next)) ==> next == start
            + count_fields(fields, present, |f: FieldDescriptor, p: bool| where_consuming(f, p, cfg)),
        forall|f: FieldDescriptor, p: bool, next: nat|
            #![trigger where_step(f, p, cfg, next)]
            where_step(f, p, cfg, next) matches Ok((_, after)) ==> after == next + if where_consuming(
                f,
                p,
                cfg,
            ) {
                1nat
            } else {
                0nat
            },
    decreases fields.len(),
{
    if fields.len() > 0 {
        lemma_where_counter(fields.take(fields.len() - 1), present, cfg, start);
    }
}

/// In `SET` each field moves the counter by one exactly when it consumes, so
/// after any run of fields that renders, the counter is the start plus the
/// number of consuming fields among them.
pub proof fn lemma_set_counter(fields: Seq<FieldDescriptor>, present: Seq<bool>, cfg: GlobalConfig, start: nat)
    requires
        fields.len() <= present.len(),
    ensures
        set_fold(fields, present, cfg, start) matches Ok((_, next)) ==> next == start
            + count_fields(fields, present, |f: FieldDescriptor, p: bool| set_consuming(f, p, cfg)),
        forall|f: FieldDescriptor, p: bool, next: nat|
            #![trigger set_step(f, p, cfg, next)]
            set_step(f, p, cfg, next) matches Ok((_, after)) ==> after == next + if set_consuming(
                f,
                p,
                cfg,
            ) {
                1nat
            } else {
                0nat
            },
    decreases fields.len(),
{
    if fields.len() > 0 {
        lemma_set_counter(fields.take(fields.len() - 1), present, cfg, start);
    }
}

/// For the predicates of fields redirected out of `SET`, each field moves the
/// counter by one exactly when it consumes; after any run of fields the
/// counter is the start plus the number of consuming fields among them.
pub proof fn lemma_redirect_counter(fields: Seq<FieldDescriptor>, present: Seq<bool>, cfg: GlobalConfig, start: nat)
    requires
        fields.len() <= present.len(),
    ensures
        redirect_fold(fields, present, cfg, start).1 == start + count_fields(
            fields,
            present,
            |f: FieldDescriptor, p: bool| redirect_consuming(f, p, cfg),
        ),
        forall|f: FieldDescriptor, p: bool, next: nat|
            #![trigger redirect_step(f, p, cfg, next)]
            redirect_step(f, p, cfg, next).1 == next + if redirect_consuming(f, p, cfg) {
                1nat
            } else {
                0nat
            },
    decreases fields.len(),
{
    if fields.len() > 0 {
        lemma_redirect_counter(fields.take(fields.len() - 1), present, cfg, start);
    }
}

// ---- Fixed indices and literal values ------------------------------------

/// A field with a fixed index or a literal value leaves the counter where it
/// found it, in every clause: the fields after it see the same counter as if
/// it took no part.
pub proof fn lemma_fixed_index_isolation(f: FieldDescriptor, present: bool, cfg: GlobalConfig, next: nat)
    ensures
        (f.on_values matches Some(d) && (d.index is Some || d.value is Some)) ==> values_step(
            f,
            cfg.dialect,
            next,
        ).1 == next,
        (where_directive(f, cfg) matches Some(d) && !consumes(d)) ==> (where_step(
            f,
            present,
            cfg,
            next,
        ) matches Ok((_, after)) ==> after == next),
        (set_directive(f, cfg) matches Some(d) && !consumes(d)) ==> (set_step(
            f,
            present,
            cfg,
            next,
        ) matches Ok((_, after)) ==> after == next) && redirect_step(f, present, cfg, next).1
            == next,
{
}

// ---- Optional suppression ------------------------------------------------

/// In `WHERE`, a field whose absence suppresses it yields no predicate and
/// consumes no number when its value is absent, and exactly one predicate
/// when it is present.
pub proof fn lemma_where_optional(f: FieldDescriptor, cfg: GlobalConfig, next: nat, d: Directive)
    requires
        where_directive(f, cfg) == Some(d),
        !condition_missing(where_template(d), d),
        f.is_optional,
        effective_ignore_none(d, cfg),
    ensures
        where_step(f, false, cfg, next) == Ok::<(Option<Seq<char>>, nat), Seq<char>>((None, next)),
        where_step(f, true, cfg, next) matches Ok((Some(_), _)),
{
}

/// In `SET`, a field kept in the list whose absence suppresses it yields no
/// assignment and consumes no number when its value is absent, and exactly
/// one assignment when it is present; the same holds of its redirected
/// predicate.
pub proof fn lemma_set_optional(f: FieldDescriptor, cfg: GlobalConfig, next: nat, d: Directive)
    requires
        set_directive(f, cfg) == Some(d),
        !redirect_invalid(d),
        f.is_optional,
        effective_ignore_none(d, cfg),
    ensures
        set_step(f, false, cfg, next) == Ok::<(Option<Seq<char>>, nat), Seq<char>>((None, next)),
        kept_in_set(d, cfg) ==> set_step(f, true, cfg, next) matches Ok((Some(_), _)),
        redirect_step(f, false, cfg, next) == (None::<Seq<char>>, next),
        redirect_template(d) is Some ==> redirect_step(f, true, cfg, next).0 is Some,
{
}

// ---- Combined ordering ---------------------------------------------------

/// Combined generation numbers the `WHERE` predicates from where `SET` left
/// the counter: the assignments take `start ..` for their consuming fields,
/// and the predicates continue from the counter after the last assignment.
pub proof fn lemma_combined_continues(fields: Seq<FieldDescriptor>, present: Seq<bool>, cfg: GlobalConfig)
    requires
        fields.len() <= present.len(),
    ensures
        set_and_where_fold(fields, present, cfg) matches Ok((sets, wheres, after)) ==> {
            let set_next = cfg.start_index + count_fields(
                fields,
                present,
                |f: FieldDescriptor, p: bool| set_consuming(f, p, cfg),
            );
            &&& set_fold(fields, present, cfg, cfg.start_index as nat) == Ok::<
                (Seq<Seq<char>>, nat),
                Seq<char>,
            >((sets, set_next as nat))
            &&& redirect_fold(fields, present, cfg, set_next as nat) == (wheres, after)
            &&& after == set_next + count_fields(
                fields,
                present,
                |f: FieldDescriptor, p: bool| redirect_consuming(f, p, cfg),
            )
        },
{
    lemma_set_counter(fields, present, cfg, cfg.start_index as nat);
    if let Ok((sets, next)) = set_fold(fields, present, cfg, cfg.start_index as nat) {
        lemma_redirect_counter(fields, present, cfg, next);
    }
}

// ---- Order preservation ---------------------------------------------------

/// `a` opens `b`.
pub open spec fn opens(a: Seq<Seq<char>>, b: Seq<Seq<char>>) -> bool {
    a.len() <= b.len() && b.take(a.len() as int) == a
}

/// The fragment, if any, as a sequence of zero or one fragments.
pub open spec fn zero_or_one(o: Option<Seq<char>>) -> Seq<Seq<char>> {
    match o {
        Some(t) => seq![t],
        None => seq![],
    }
}

/// `opens` is transitive.
proof fn lemma_opens_trans(a: Seq<Seq<char>>, b: Seq<Seq<char>>, c: Seq<Seq<char>>)
    requires
        opens(a, b),
        opens(b, c),
    ensures
        opens(a, c),
{
    assert(c.take(a.len() as int) =~= c.take(b.len() as int).take(a.len() as int));
}

/// A sequence opens itself, and itself with one more fragment.
proof fn lemma_opens_grow(b: Seq<Seq<char>>)
    ensures
        opens(b, b),
        forall|t: Seq<char>| opens(b, #[trigger] b.push(t)),
{
    assert(b.take(b.len() as int) =~= b);
    assert forall|t: Seq<char>| opens(b, #[trigger] b.push(t)) by {
        assert(b.push(t).take(b.len() as int) =~= b);
    }
}

/// Column lists keep declaration order: the entries of the first `k + 1`
/// fields open the list, and are those of the first `k` followed by field
/// `k`'s own entry unless it is ignored.
pub proof fn lemma_column_order(fields: Seq<FieldDescriptor>, select: bool, k: int)
    requires
        0 <= k < fields.len(),
    ensures
        opens(column_fold(fields.take(k + 1), select), column_fold(fields, select)),
        column_fold(fields.take(k + 1), select) == column_fold(fields.take(k), select)
            + zero_or_one(column_entry(fields[k], column_directive(fields[k], select))),
    decreases fields.len(),
{
    let n = fields.len() as int;
    lemma_take_step(fields, k);
    lemma_take_step(fields, n - 1);
    if k + 1 < n {
        let shorter = fields.take(n - 1);
        assert(shorter.take(k) =~= fields.take(k));
        assert(shorter.take(k + 1) =~= fields.take(k + 1));
        lemma_column_order(shorter, select, k);
        lemma_opens_grow(column_fold(shorter, select));
        lemma_opens_trans(
            column_fold(fields.take(k + 1), select),
            column_fold(shorter, select),
            column_fold(fields, select),
        );
    } else {
        assert(fields.take(k + 1) =~= fields);
        lemma_opens_grow(column_fold(fields, select));
    }
}

/// `VALUES` keeps declaration order: the placeholders of the first `k + 1`
/// fields open the clause, and are those of the first `k` followed by field
/// `k`'s own unless it is ignored.
pub proof fn lemma_values_order(fields: Seq<FieldDescriptor>, dialect: Dialect, start: nat, k: int)
    requires
        0 <= k < fields.len(),
    ensures
        ({
            let (before, next) = values_fold(fields.take(k), dialect, start);
            let upto = values_fold(fields.take(k + 1), dialect, start).0;
            &&& opens(upto, values_fold(fields, dialect, start).0)
            &&& upto == before + zero_or_one(values_step(fields[k], dialect, next).0)
        }),
    decreases fields.len(),
{
    let n = fields.len() as int;
    lemma_take_step(fields, k);
    lemma_take_step(fields, n - 1);
    if k + 1 < n {
        let shorter = fields.take(n - 1);
        assert(shorter.take(k) =~= fields.take(k));
        assert(shorter.take(k + 1) =~= fields.take(k + 1));
        lemma_values_order(shorter, dialect, start, k);
        lemma_opens_grow(values_fold(shorter, dialect, start).0);
        lemma_opens_trans(
            values_fold(fields.take(k + 1), dialect, start).0,
            values_fold(shorter, dialect, start).0,
            values_fold(fields, dialect, start).0,
        );
    } else {
        assert(fields.take(k + 1) =~= fields);
        lemma_opens_grow(values_fold(fields, dialect, start).0);
    }
}

/// `WHERE` keeps declaration order: when the clause renders, the predicates
/// of the first `k + 1` fields open it, and are those of the first `k`
/// followed by field `k`'s own unless it is ignored or suppressed.
pub proof fn lemma_where_order(fields: Seq<FieldDescriptor>, present: Seq<bool>, cfg: GlobalConfig, start: nat, k: int)
    requires
        0 <= k < fields.len(),
        fields.len() <= present.len(),
    ensures
        where_fold(fields, present, cfg, start) matches Ok((all, _)) ==> {
            &&& where_fold(fields.take(k), present, cfg, start) matches Ok((before, next))
            &&& where_step(fields[k], present[k], cfg, next) matches Ok((frag, _))
            &&& where_fold(fields.take(k + 1), present, cfg, start) matches Ok((upto, _))
            &&& upto == before + zero_or_one(frag)
            &&& opens(upto, all)
        },
    decreases fields.len(),
{
    let n = fields.len() as int;
    lemma_take_step(fields, k);
    lemma_take_step(fields, n - 1);
    if let Ok((all, _)) = where_fold(fields, present, cfg, start) {
        if k + 1 < n {
            let shorter = fields.take(n - 1);
            assert(shorter.take(k) =~= fields.take(k));
            assert(shorter.take(k + 1) =~= fields.take(k + 1));
            lemma_where_order(shorter, present, cfg, start, k);
            let prev = where_fold(shorter, present, cfg, start)->Ok_0.0;
            lemma_opens_grow(prev);
            lemma_opens_trans(
                where_fold(fields.take(k + 1), present, cfg, start)->Ok_0.0,
                prev,
                all,
            );
        } else {
            assert(fields.take(k + 1) =~= fields);
            lemma_opens_grow(all);
        }
    }
}

/// `SET` keeps declaration order: when the clause renders, the assignments
/// of the first `k + 1` fields open it, and are those of the first `k`
/// followed by field `k`'s own unless it is left out or suppressed.
pub proof fn lemma_set_order(fields: Seq<FieldDescriptor>, present: Seq<bool>, cfg: GlobalConfig, start: nat, k: int)
    requires
        0 <= k < fields.len(),
        fields.len() <= present.len(),
    ensures
        set_fold(fields, present, cfg, start) matches Ok((all, _)) ==> {
            &&& set_fold(fields.take(k), present, cfg, start) matches Ok((before, next))
            &&& set_step(fields[k], present[k], cfg, next) matches Ok((frag, _))
            &&& set_fold(fields.take(k + 1), present, cfg, start) matches Ok((upto, _))
            &&& upto == before + zero_or_one(frag)
            &&& opens(upto, all)
        },
    decreases fields.len(),
{
    let n = fields.len() as int;
    lemma_take_step(fields, k);
    lemma_take_step(fields, n - 1);
    if let Ok((all, _)) = set_fold(fields, present, cfg, start) {
        if k + 1 < n {
            let shorter = fields.take(n - 1);
            assert(shorter.take(k) =~= fields.take(k));
            assert(shorter.take(k + 1) =~= fields.take(k + 1));
            lemma_set_order(shorter, present, cfg, start, k);
            let prev = set_fold(shorter, present, cfg, start)->Ok_0.0;
            lemma_opens_grow(prev);
            lemma_opens_trans(
                set_fold(fields.take(k + 1), present, cfg, start)->Ok_0.0,
                prev,
                all,
            );
        } else {
            assert(fields.take(k + 1) =~= fields);
            lemma_opens_grow(all);
        }
    }
}

/// The predicates of fields redirected out of `SET` keep declaration order:
/// those of the first `k + 1` fields open the list, and are those of the
/// first `k` followed by field `k`'s own if it is redirected and not
/// suppressed.
pub proof fn lemma_redirect_order(fields: Seq<FieldDescriptor>, present: Seq<bool>, cfg: GlobalConfig, start: nat, k: int)
    requires
        0 <= k < fields.len(),
        fields.len() <= present.len(),
    ensures
        ({
            let (before, next) = redirect_fold(fields.take(k), present, cfg, start);
            let upto = redirect_fold(fields.take(k + 1), present, cfg, start).0;
            &&& opens(upto, redirect_fold(fields, present, cfg, start).0)
            &&& upto == before + zero_or_one(redirect_step(fields[k], present[k], cfg, next).0)
        }),
    decreases fields.len(),
{
    let n = fields.len() as int;
    lemma_take_step(fields, k);
    lemma_take_step(fields, n - 1);
    if k + 1 < n {
        let shorter = fields.take(n - 1);
        assert(shorter.take(k) =~= fields.take(k));
        assert(shorter.take(k + 1) =~= fields.take(k + 1));
        lemma_redirect_order(shorter, present, cfg, start, k);
        lemma_opens_grow(redirect_fold(shorter, present, cfg, start).0);
        lemma_opens_trans(
            redirect_fold(fields.take(k + 1), present, cfg, start).0,
            redirect_fold(shorter, present, cfg, start).0,
            redirect_fold(fields, present, cfg, start).0,
        );
    } else {
        assert(fields.take(k + 1) =~= fields);
        lemma_opens_grow(redirect_fold(fields, present, cfg, start).0);
    }
}

} // verus!
