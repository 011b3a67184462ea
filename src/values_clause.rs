//! `VALUES` placeholders: one per field that is not ignored, in declaration
//! order.
use vstd::prelude::*;

use crate::dialect::{placeholder, Dialect};
use crate::index::IndexAllocator;
use crate::resolve::{lemma_take_step, opt_view};
use crate::schema::{views, Clause, FieldDescriptor, GlobalConfig};
use crate::text::{index_token, replace_all, replace_token};

verus! {

/// What field `f` contributes to `VALUES` with the counter at `next`, and
/// the counter after it. A fixed index wins over a literal value; a literal
/// may name the current counter's placeholder through `{index}`, and neither
/// of the two consumes a number.
pub open spec fn values_step(f: FieldDescriptor, dialect: Dialect, next: nat) -> (Option<Seq<char>>, nat) {
    match f.on_values {
        None => (Some(placeholder(dialect, next)), next + 1),
        Some(d) => if d.ignore {
            (None, next)
        } else {
            match d.index {
                Some(k) => (Some(placeholder(dialect, k as nat)), next),
                None => match d.value {
                    Some(v) => (Some(replace_all(v@, index_token(), placeholder(dialect, next))), next),
                    None => (Some(placeholder(dialect, next)), next + 1),
                },
            }
        },
    }
}

/// The placeholders of `fields` in order, and the counter after them, from
/// `start`.
pub open spec fn values_fold(fields: Seq<FieldDescriptor>, dialect: Dialect, start: nat) -> (Seq<Seq<char>>, nat)
    decreases fields.len(),
{
    if fields.len() == 0 {
        (seq![], start)
    } else {
        let k = fields.len() - 1;
        let (frags, next) = values_fold(fields.take(k), dialect, start);
        match values_step(fields[k], dialect, next) {
            (None, after) => (frags, after),
            (Some(t), after) => (frags.push(t), after),
        }
    }
}

fn values_field(f: &FieldDescriptor, dialect: Dialect, alloc: &mut IndexAllocator) -> (r: Option<String>)
    requires
        old(alloc).current < usize::MAX,
    ensures
        opt_view(r) == values_step(*f, dialect, old(alloc).current as nat).0,
        final(alloc).current == values_step(*f, dialect, old(alloc).current as nat).1,
{
    match &f.on_values {
        None => Some(dialect.placeholder(alloc.next(true))),
        Some(d) => if d.ignore {
            None
        } else {
            match d.index {
                Some(k) => Some(dialect.placeholder(k)),
                None => match &d.value {
                    Some(v) => {
                        let p = dialect.placeholder(alloc.next(false));
                        proof {
                            reveal_strlit("{index}");
                            assert("{index}"@ =~= index_token());
                        }
                        Some(replace_token(v.as_str(), "{index}", p.as_str()))
                    },
                    None => Some(dialect.placeholder(alloc.next(true))),
                },
            }
        },
    }
}

/// The `VALUES` placeholders of a record type, numbered from the configured
/// start.
pub fn values_clause(schema: &Vec<FieldDescriptor>, cfg: &GlobalConfig) -> (r: Clause)
    requires
        cfg.start_index + schema@.len() <= usize::MAX,
    ensures
        views(r.fragments@) == values_fold(schema@, cfg.dialect, cfg.start_index as nat).0,
        r.next_index == values_fold(schema@, cfg.dialect, cfg.start_index as nat).1,
{
    let n = schema.len();
    let start = cfg.start_index;
    let mut alloc = IndexAllocator::new(start);
    let mut out: Vec<String> = Vec::new();
    let mut i: usize = 0;
    assert(views(out@) =~= Seq::<Seq<char>>::empty());
    assert(schema@.take(0).len() == 0);
    while i < n
        invariant
            n == schema@.len(),
            start == cfg.start_index,
            start + n <= usize::MAX,
            i <= n,
            alloc.current <= start + i,
            values_fold(schema@.take(i as int), cfg.dialect, start as nat) == (
                views(out@),
                alloc.current as nat,
            ),
        decreases n - i,
    {
        proof {
            lemma_take_step(schema@, i as int);
        }
        match values_field(&schema[i], cfg.dialect, &mut alloc) {
            None => {},
            Some(s) => {
                let ghost before = out@;
                out.push(s);
                assert(views(out@) =~= views(before).push(s@));
            },
        }
        i = i + 1;
    }
    assert(schema@.take(n as int) =~= schema@);
    Clause { fragments: out, next_index: alloc.current }
}

} // verus!
