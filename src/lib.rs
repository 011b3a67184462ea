//! SQL clause fragments (column lists, value placeholders, `SET`
//! assignments and `WHERE` predicates) assembled from a per-field schema.

pub mod columns;
pub mod dialect;
pub mod error;
pub mod index;
pub mod laws;
pub mod resolve;
pub mod schema;
pub mod set_clause;
pub mod text;
pub mod traits;
pub mod values_clause;
pub mod where_clause;

pub use dialect::{generate_placeholder, Dialect};
pub use error::GenError;
pub use index::IndexAllocator;
pub use columns::{fields_clause, select_clause};
pub use schema::{Clause, Directive, FieldDescriptor, GlobalConfig};
pub use set_clause::{set_and_where_clause, set_clause, set_clause_from, set_redirect_clause_from};
pub use traits::{
    FieldsAttributeMacro, SelectAttributeMacro, SetAttributeMacro, ValuesAttributeMacro,
    WhereAttributeMacro,
};
pub use values_clause::values_clause;
pub use where_clause::{where_clause, where_clause_from};
