//! Failures of configuration binding and clause generation.
use vstd::prelude::*;

verus! {

/// Why a configuration could not be bound or a clause could not be generated.
#[derive(Debug, Clone, PartialEq, Eq)]
pub enum GenError {
    /// The configuration names no database.
    MissingDatabase,
    /// The database name is none of the supported dialects.
    UnsupportedDialect,
    /// A template asks for `{condition}` but the field's condition is empty;
    /// holds the field's declared name.
    MissingCondition(String),
}

} // verus!
