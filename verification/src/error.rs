use vstd::prelude::*;
use vstd::string::*;

verus! {

/// The error taxonomy of the engine.
///
/// Configuration and validation errors are fatal and abort a bench session
/// before or during the validation pass; per-request errors during load
/// generation are never fatal and are only counted and surfaced as text.
#[derive(Debug)]
pub enum Error {
    /// The endpoint type named in the options is not one the engine knows.
    InvalidEndpointType(String),
    /// The connector named in the options is not one the reports know.
    InvalidDatabaseType(String),
    /// A query failed the validation pass; carries the query name and a
    /// description of the offending payload or status.
    InvalidQuery { query: String, error: String },
    /// A response body could not be decoded as JSON during validation.
    Serialization(String),
}

impl Error {
    /// True exactly for the validation failure carrying this query name.
    pub open spec fn is_invalid_query_named(&self, name: Seq<char>) -> bool {
        match self {
            Error::InvalidQuery { query, error: _ } => query@ == name,
            _ => false,
        }
    }

    /// The text under which the error is reported.
    pub open spec fn spec_message(&self) -> Seq<char> {
        match self {
            Error::InvalidEndpointType(t) => "Endpoint type '"@ + t@ + "' is not supported"@,
            Error::InvalidDatabaseType(t) => "Database type '"@ + t@ + "' is not supported"@,
            Error::InvalidQuery { query, error } => "Query "@ + query@ + " returned an error: "@
                + error@,
            Error::Serialization(m) => "Serialization error: "@ + m@,
        }
    }

    /// Renders the error's report text.
    pub fn message(&self) -> (r: String)
        ensures
            r@ == self.spec_message(),
    {
        match self {
            Error::InvalidEndpointType(t) => {
                let mut s = String::from_str("Endpoint type '");
                s.append(t.as_str());
                s.append("' is not supported");
                s
            },
            Error::InvalidDatabaseType(t) => {
                let mut s = String::from_str("Database type '");
                s.append(t.as_str());
                s.append("' is not supported");
                s
            },
            Error::InvalidQuery { query, error } => {
                let mut s = String::from_str("Query ");
                s.append(query.as_str());
                s.append(" returned an error: ");
                s.append(error.as_str());
                s
            },
            Error::Serialization(m) => {
                let mut s = String::from_str("Serialization error: ");
                s.append(m.as_str());
                s
            },
        }
    }
}

} // verus!
