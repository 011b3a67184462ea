//! Dialect resolution: from a database name to the shape of its
//! positional placeholders.
use vstd::prelude::*;

use crate::error::GenError;
use crate::text::{decimal, decimal_string, index_token, replace_all, replace_token, str_eq};

verus! {

/// Target SQL engine, which decides the shape of positional placeholders.
#[derive(Clone, Copy, Debug, PartialEq, Eq, Structural)]
pub enum Dialect {
    Postgres,
    Mysql,
    Mariadb,
    Sqlite,
    Mssql,
}

/// The dialect that a database name denotes, if any.
pub open spec fn dialect_named(name: Seq<char>) -> Option<Dialect> {
    if name == "postgres"@ {
        Some(Dialect::Postgres)
    } else if name == "mysql"@ {
        Some(Dialect::Mysql)
    } else if name == "mariadb"@ {
        Some(Dialect::Mariadb)
    } else if name == "sqlite"@ {
        Some(Dialect::Sqlite)
    } else if name == "mssql"@ {
        Some(Dialect::Mssql)
    } else {
        None
    }
}

/// The placeholder template of a dialect: `${index}`, `@p{index}`, or the
/// unnumbered `?`.
pub open spec fn placeholder_template(d: Dialect) -> Seq<char> {
    match d {
        Dialect::Postgres => seq!['$'] + index_token(),
        Dialect::Mssql => seq!['@', 'p'] + index_token(),
        _ => seq!['?'],
    }
}

/// The placeholder of parameter number `n` in dialect `d`.
pub open spec fn placeholder(d: Dialect, n: nat) -> Seq<char> {
    replace_all(placeholder_template(d), index_token(), decimal(n))
}

impl Dialect {
    /// The dialect that `name` denotes.
    pub fn from_name(name: &str) -> (r: Result<Dialect, GenError>)
        ensures
            r == (match dialect_named(name@) {
                Some(d) => Ok(d),
                None => Err(GenError::UnsupportedDialect),
            }),
    {
        if str_eq(name, "postgres") {
            Ok(Dialect::Postgres)
        } else if str_eq(name, "mysql") {
            Ok(Dialect::Mysql)
        } else if str_eq(name, "mariadb") {
            Ok(Dialect::Mariadb)
        } else if str_eq(name, "sqlite") {
            Ok(Dialect::Sqlite)
        } else if str_eq(name, "mssql") {
            Ok(Dialect::Mssql)
        } else {
            Err(GenError::UnsupportedDialect)
        }
    }

    /// This dialect's placeholder template.
    pub fn template(&self) -> (r: String)
        ensures
            r@ == placeholder_template(*self),
    {
        proof {
            reveal_strlit("${index}");
            reveal_strlit("@p{index}");
            reveal_strlit("?");
        }
        let r = match self {
            Dialect::Postgres => String::from_str("${index}"),
            Dialect::Mssql => String::from_str("@p{index}"),
            _ => String::from_str("?"),
        };
        assert(r@ =~= placeholder_template(*self));
        r
    }

    /// The placeholder of parameter number `n`.
    pub fn placeholder(&self, n: usize) -> (r: String)
        ensures
            r@ == placeholder(*self, n as nat),
    {
        let template = self.template();
        let number = decimal_string(n);
        proof {
            reveal_strlit("{index}");
            assert("{index}"@ =~= index_token());
        }
        replace_token(template.as_str(), "{index}", number.as_str())
    }
}

/// The placeholder template of the database named `database`: it contains
/// `{index}` for dialects that number their parameters.
pub fn generate_placeholder(database: &str) -> (r: Result<String, GenError>)
    ensures
        match dialect_named(database@) {
            Some(d) => r is Ok && r->Ok_0@ == placeholder_template(d),
            None => r == Err::<String, GenError>(GenError::UnsupportedDialect),
        },
{
    match Dialect::from_name(database) {
        Ok(d) => Ok(d.template()),
        Err(e) => Err(e),
    }
}

} // verus!
