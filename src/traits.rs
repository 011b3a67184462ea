//! The interfaces a record type implements to expose its clauses. An
//! implementation describes the type once as a schema and answers each
//! method by calling the matching generator of this crate.
use vstd::prelude::*;

verus! {

/// A record type's field list, for `RETURNING` or `INSERT` column lists.
pub trait FieldsAttributeMacro {
    /// The names of the fields that are not ignored, renamed where asked.
    fn generate_fields_clause() -> Vec<String>;
}

/// A record type's select list.
pub trait SelectAttributeMacro {
    /// The names or expressions of the fields that are not ignored.
    fn generate_select_clause() -> Vec<String>;
}

/// A record type's `VALUES` placeholders.
pub trait ValuesAttributeMacro {
    /// One placeholder or literal per field that is not ignored.
    fn generate_values_clause() -> Vec<String>;

    /// The last number that the placeholders took from the counter.
    fn last_param_index() -> usize;
}

/// A record's `WHERE` predicates.
pub trait WhereAttributeMacro {
    /// One predicate per field that is neither ignored nor suppressed,
    /// numbered from the configured start.
    fn generate_where_clause(&self) -> Vec<String>;

    /// The same predicates, numbered from `index`.
    fn generate_where_clause_with_index(&self, index: usize) -> Vec<String>;

    /// The last number that the predicates took from the counter.
    fn last_param_index(&self) -> usize;
}

/// A record's `SET` assignments, and the predicates of the fields that it
/// redirects to `WHERE`.
pub trait SetAttributeMacro {
    /// One assignment per field kept in `SET` and not suppressed.
    fn generate_set_clause(&self) -> Vec<String>;

    /// The predicates of the redirected fields, numbered after the
    /// assignments.
    fn generate_where_clause(&self) -> Vec<String>;

    /// The assignments and the predicates under one counter.
    fn generate_set_and_where_clause(&self) -> (Vec<String>, Vec<String>);

    /// The last number that the assignments and predicates took.
    fn last_param_index(&self) -> usize;
}

} // verus!
