//! The database connector a stored measurement or report is scoped to.
//!
//! The aggregation of stored measurements itself (SQL averages compared as
//! floating-point percentages) belongs to the unverified surroundings; the
//! connector names, their parsing and the report's column width are plain
//! rules and live here.

use vstd::prelude::*;
use vstd::string::*;
use crate::error::Error;
use crate::text::str_eq;

verus! {

/// The connector under test.
#[derive(Debug, Clone, Copy, PartialEq, Eq, Structural)]
pub enum ConnectorType {
    Postgres,
    Mysql,
}

impl ConnectorType {
    /// The connector's canonical name.
    pub fn as_str(&self) -> (r: &'static str)
        ensures
            *self == ConnectorType::Postgres ==> r@ == "postgres"@,
            *self == ConnectorType::Mysql ==> r@ == "mysql"@,
    {
        match self {
            ConnectorType::Postgres => "postgres",
            ConnectorType::Mysql => "mysql",
        }
    }

    /// Parses a connector name; `"postgres"` (also under its long name
    /// `"postgresql"`) and `"mysql"` are the connectors known.
    pub fn from_str(s: &str) -> (r: Result<ConnectorType, Error>)
        ensures
            s@ == "postgres"@ || s@ == "postgresql"@ ==> r == Ok::<ConnectorType, Error>(
                ConnectorType::Postgres,
            ),
            s@ == "mysql"@ ==> r == Ok::<ConnectorType, Error>(ConnectorType::Mysql),
            s@ != "postgres"@ && s@ != "postgresql"@ && s@ != "mysql"@ ==> (r matches Err(
                Error::InvalidDatabaseType(t),
            ) && t@ == s@),
    {
        proof {
            reveal_strlit("postgres");
            reveal_strlit("postgresql");
            reveal_strlit("mysql");
            assert("postgres"@.len() != "postgresql"@.len());
            assert("postgres"@.len() != "mysql"@.len());
            assert("postgresql"@.len() != "mysql"@.len());
        }
        if str_eq(s, "postgres") || str_eq(s, "postgresql") {
            Ok(ConnectorType::Postgres)
        } else if str_eq(s, "mysql") {
            Ok(ConnectorType::Mysql)
        } else {
            Err(Error::InvalidDatabaseType(s.to_owned()))
        }
    }
}

/// The width a report pads its query-name column to: the character length
/// of the longest query name.  A report over no measurements has no width
/// to speak of.
pub fn longest_query(names: &Vec<String>) -> (r: usize)
    requires
        names@.len() > 0,
    ensures
        exists|i: int| 0 <= i < names@.len() && r == #[trigger] names@[i]@.len(),
        forall|i: int| 0 <= i < names@.len() ==> #[trigger] names@[i]@.len() <= r,
{
    let mut best: usize = names[0].as_str().unicode_len();
    let n = names.len();
    let mut i: usize = 1;
    while i < n
        invariant
            1 <= i <= n,
            n == names@.len(),
            exists|k: int| 0 <= k < i && best == #[trigger] names@[k]@.len(),
            forall|k: int| 0 <= k < i ==> #[trigger] names@[k]@.len() <= best,
        decreases n - i,
    {
        let len = names[i].as_str().unicode_len();
        if len > best {
            best = len;
        }
        i += 1;
    }
    best
}

} // verus!
