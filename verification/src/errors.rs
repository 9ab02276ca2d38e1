//! The error taxonomy of the service core.

use vstd::prelude::*;

verus! {

/// A typed failure value returned across the core's boundary.
///
/// `Network` carries the transport failure text supplied by the caller that
/// performed the request; `Parse` carries the JSON parser's message; and
/// `NotLoaded` marks a query attempted before any successful ingestion.
/// Empty query results are not errors and have no variant here.
#[derive(Debug)]
pub enum ApiError {
    Network(String),
    Parse(String),
    NotLoaded,
}

impl ApiError {
    /// The text a caller may surface for this error.
    pub fn message(&self) -> (m: String)
        ensures
            match self {
                ApiError::Network(s) => m@ == s@,
                ApiError::Parse(s) => m@ == s@,
                ApiError::NotLoaded => m@ == "Data not loaded yet"@,
            },
    {
        match self {
            ApiError::Network(s) => s.clone(),
            ApiError::Parse(s) => s.clone(),
            ApiError::NotLoaded => "Data not loaded yet".to_owned(),
        }
    }
}

} // verus!
