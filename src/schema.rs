//! The schema model: per-field directives for each clause kind, field
//! descriptors, and the configuration of one generation pass.
use vstd::prelude::*;

use crate::dialect::{dialect_named, Dialect};
use crate::error::GenError;

verus! {

/// How one field appears in one kind of clause. Every attribute is optional
/// and several may be given together; each generator reads the ones that
/// concern it, in its documented order of priority.
#[derive(Debug, Clone, PartialEq, Eq)]
pub struct Directive {
    /// Leave the field out of the clause.
    pub ignore: bool,
    /// Column name (or expression) to use instead of the field's name.
    pub rename: Option<String>,
    /// Comparison operator; `=` when absent.
    pub condition: Option<String>,
    /// Full fragment template, in place of `{name} {condition} {index}`.
    pub condition_all: Option<String>,
    /// Literal text in place of the placeholder; consumes no index.
    pub value: Option<String>,
    /// Fixed parameter number; consumes no index.
    pub index: Option<usize>,
    /// Per-field override of the configuration's `ignore_none`.
    pub ignore_none: Option<bool>,
    /// `SET` only: also (or instead) emit the field as a `WHERE` predicate,
    /// with the default predicate template (`Some(None)`) or the given one.
    pub as_where: Option<Option<String>>,
    /// `SET` only: leave the field out of the `SET` list.
    pub ignore_set: bool,
}

/// The directive that a field without one behaves as.
pub open spec fn default_directive() -> Directive {
    Directive {
        ignore: false,
        rename: None,
        condition: None,
        condition_all: None,
        value: None,
        index: None,
        ignore_none: None,
        as_where: None,
        ignore_set: false,
    }
}

/// One field of a record type, with its directive for each clause kind.
#[derive(Debug, Clone, PartialEq, Eq)]
pub struct FieldDescriptor {
    /// The field's declared name.
    pub name: String,
    /// Whether the field's value can be absent (a nullable wrapper).
    pub is_optional: bool,
    pub on_fields: Option<Directive>,
    pub on_select: Option<Directive>,
    pub on_values: Option<Directive>,
    pub on_where: Option<Directive>,
    pub on_set: Option<Directive>,
}

/// The settings of one generation pass.
#[derive(Debug, Clone, Copy, PartialEq, Eq, Structural)]
pub struct GlobalConfig {
    pub dialect: Dialect,
    /// First parameter number handed out by the running counter.
    pub start_index: usize,
    /// Suppress fragments of optional fields whose value is absent.
    pub ignore_none: bool,
    /// Leave out of `WHERE` and `SET` the fields that carry no directive
    /// for that clause.
    pub ignore_fields_without_directive: bool,
    /// A field redirected to `WHERE` by a template leaves the `SET` list.
    pub ignore_set_and_where_conflict: bool,
}

/// The configuration bound from an optional database name, with every other
/// setting at its default.
pub open spec fn config_for(database: Option<Seq<char>>) -> Result<GlobalConfig, GenError> {
    match database {
        None => Err(GenError::MissingDatabase),
        Some(name) => match dialect_named(name) {
            None => Err(GenError::UnsupportedDialect),
            Some(d) => Ok(
                GlobalConfig {
                    dialect: d,
                    start_index: 1,
                    ignore_none: true,
                    ignore_fields_without_directive: true,
                    ignore_set_and_where_conflict: false,
                },
            ),
        },
    }
}

/// The fragments of one clause and the running counter after it.
#[derive(Debug, Clone, PartialEq, Eq)]
pub struct Clause {
    pub fragments: Vec<String>,
    /// The parameter number that the next consuming fragment would take.
    pub next_index: usize,
}

/// The characters of each string.
pub open spec fn views(v: Seq<String>) -> Seq<Seq<char>> {
    v.map_values(|s: String| s@)
}

impl Directive {
    /// A directive with no attribute set.
    pub fn new() -> (r: Directive)
        ensures
            r == default_directive(),
    {
        Directive {
            ignore: false,
            rename: None,
            condition: None,
            condition_all: None,
            value: None,
            index: None,
            ignore_none: None,
            as_where: None,
            ignore_set: false,
        }
    }

    /// Leaves the field out of the clause.
    pub fn ignored(self) -> (r: Directive)
        ensures
            r == (Directive { ignore: true, ..self }),
    {
        Directive { ignore: true, ..self }
    }

    /// Uses `name` in place of the field's name.
    pub fn renamed(self, name: &str) -> (r: Directive)
        ensures
            r.rename is Some && r.rename->0@ == name@,
            r == (Directive { rename: r.rename, ..self }),
    {
        Directive { rename: Some(String::from_str(name)), ..self }
    }

    /// Compares with `op` in place of `=`.
    pub fn with_condition(self, op: &str) -> (r: Directive)
        ensures
            r.condition is Some && r.condition->0@ == op@,
            r == (Directive { condition: r.condition, ..self }),
    {
        Directive { condition: Some(String::from_str(op)), ..self }
    }

    /// Renders the predicate from `template` in place of the default one.
    pub fn with_condition_all(self, template: &str) -> (r: Directive)
        ensures
            r.condition_all is Some && r.condition_all->0@ == template@,
            r == (Directive { condition_all: r.condition_all, ..self }),
    {
        Directive { condition_all: Some(String::from_str(template)), ..self }
    }

    /// Writes `literal` in place of the placeholder.
    pub fn with_value(self, literal: &str) -> (r: Directive)
        ensures
            r.value is Some && r.value->0@ == literal@,
            r == (Directive { value: r.value, ..self }),
    {
        Directive { value: Some(String::from_str(literal)), ..self }
    }

    /// Numbers the placeholder `index`, leaving the counter alone.
    pub fn with_index(self, index: usize) -> (r: Directive)
        ensures
            r == (Directive { index: Some(index), ..self }),
    {
        Directive { index: Some(index), ..self }
    }

    /// Overrides the configuration's `ignore_none` for this field.
    pub fn with_ignore_none(self, ignore_none: bool) -> (r: Directive)
        ensures
            r == (Directive { ignore_none: Some(ignore_none), ..self }),
    {
        Directive { ignore_none: Some(ignore_none), ..self }
    }

    /// Moves the field from `SET` to `WHERE`, with the default predicate.
    pub fn redirect_to_where(self) -> (r: Directive)
        ensures
            r == (Directive { as_where: Some(None), ..self }),
    {
        Directive { as_where: Some(None), ..self }
    }

    /// Adds a `WHERE` predicate for the field rendered from `template`.
    pub fn redirect_to_where_as(self, template: &str) -> (r: Directive)
        ensures
            r.as_where matches Some(Some(t)) && t@ == template@,
            r == (Directive { as_where: r.as_where, ..self }),
    {
        Directive { as_where: Some(Some(String::from_str(template))), ..self }
    }

    /// Leaves the field out of the `SET` list only.
    pub fn ignore_in_set(self) -> (r: Directive)
        ensures
            r == (Directive { ignore_set: true, ..self }),
    {
        Directive { ignore_set: true, ..self }
    }
}

impl FieldDescriptor {
    /// A field named `name` with no directive for any clause.
    pub fn new(name: &str, is_optional: bool) -> (r: FieldDescriptor)
        ensures
            r.name@ == name@,
            r.is_optional == is_optional,
            r.on_fields is None,
            r.on_select is None,
            r.on_values is None,
            r.on_where is None,
            r.on_set is None,
    {
        FieldDescriptor {
            name: String::from_str(name),
            is_optional,
            on_fields: None,
            on_select: None,
            on_values: None,
            on_where: None,
            on_set: None,
        }
    }

    /// Sets the field-list directive.
    pub fn with_fields(self, d: Directive) -> (r: FieldDescriptor)
        ensures
            r == (FieldDescriptor { on_fields: Some(d), ..self }),
    {
        FieldDescriptor { on_fields: Some(d), ..self }
    }

    /// Sets the select-list directive.
    pub fn with_select(self, d: Directive) -> (r: FieldDescriptor)
        ensures
            r == (FieldDescriptor { on_select: Some(d), ..self }),
    {
        FieldDescriptor { on_select: Some(d), ..self }
    }

    /// Sets the `VALUES` directive.
    pub fn with_values(self, d: Directive) -> (r: FieldDescriptor)
        ensures
            r == (FieldDescriptor { on_values: Some(d), ..self }),
    {
        FieldDescriptor { on_values: Some(d), ..self }
    }

    /// Sets the `WHERE` directive.
    pub fn with_where(self, d: Directive) -> (r: FieldDescriptor)
        ensures
            r == (FieldDescriptor { on_where: Some(d), ..self }),
    {
        FieldDescriptor { on_where: Some(d), ..self }
    }

    /// Sets the `SET` directive.
    pub fn with_set(self, d: Directive) -> (r: FieldDescriptor)
        ensures
            r == (FieldDescriptor { on_set: Some(d), ..self }),
    {
        FieldDescriptor { on_set: Some(d), ..self }
    }
}

impl GlobalConfig {
    /// Binds a configuration to the database named `database`; fails when
    /// no name is given or the name is not a supported dialect.
    pub fn new(database: Option<&str>) -> (r: Result<GlobalConfig, GenError>)
        ensures
            r == config_for(
                match database {
                    Some(s) => Some(s@),
                    None => None,
                },
            ),
    {
        match database {
            None => Err(GenError::MissingDatabase),
            Some(name) => match Dialect::from_name(name) {
                Err(e) => Err(e),
                Ok(d) => Ok(
                    GlobalConfig {
                        dialect: d,
                        start_index: 1,
                        ignore_none: true,
                        ignore_fields_without_directive: true,
                        ignore_set_and_where_conflict: false,
                    },
                ),
            },
        }
    }

    /// Starts the counter at `start`.
    pub fn with_start_index(self, start: usize) -> (r: GlobalConfig)
        ensures
            r == (GlobalConfig { start_index: start, ..self }),
    {
        GlobalConfig { start_index: start, ..self }
    }

    /// Sets whether absent optional values suppress their fragments.
    pub fn with_ignore_none(self, ignore_none: bool) -> (r: GlobalConfig)
        ensures
            r == (GlobalConfig { ignore_none, ..self }),
    {
        GlobalConfig { ignore_none, ..self }
    }

    /// Sets whether fields without a directive are left out.
    pub fn with_ignore_fields_without_directive(self, ignore: bool) -> (r: GlobalConfig)
        ensures
            r == (GlobalConfig { ignore_fields_without_directive: ignore, ..self }),
    {
        GlobalConfig { ignore_fields_without_directive: ignore, ..self }
    }

    /// Sets whether a redirect by template removes the field from `SET`.
    pub fn with_ignore_set_and_where_conflict(self, ignore: bool) -> (r: GlobalConfig)
        ensures
            r == (GlobalConfig { ignore_set_and_where_conflict: ignore, ..self }),
    {
        GlobalConfig { ignore_set_and_where_conflict: ignore, ..self }
    }
}

} // verus!
