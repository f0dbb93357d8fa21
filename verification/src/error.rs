//! The error taxonomy: store failures, repository failures, and the
//! service-level error that wraps either of them or reports a missing
//! record.

use vstd::prelude::*;

verus! {

/// A failure of the blob store.
#[derive(Debug)]
pub enum StoreError {
    /// The cumulative size of the written chunks exceeded the configured
    /// ceiling; any partial blob is invalid.
    SizeLimitExceeded,
    /// No blob is stored under the requested token.
    TokenNotFound,
    /// The backing medium failed (an I/O error, in backends that have one).
    Io(String),
}

/// A failure of the metadata repository.
#[derive(Debug)]
pub enum RepositoryError {
    /// The backend failed outright.
    Backend(String),
    /// The backend rejected the record (a constraint violation).
    Constraint(String),
}

/// The service-level error: wraps a repository or store failure, or reports
/// that no record exists under the requested id.
#[derive(Debug)]
pub enum Error {
    RepositoryError(RepositoryError),
    StoreError(StoreError),
    NotFound,
}

impl StoreError {
    /// The message that [`Self::message`] returns.
    pub open spec fn spec_message(self) -> Seq<char> {
        match self {
            StoreError::SizeLimitExceeded => "Size limit exceeded"@,
            StoreError::TokenNotFound => "Token not found"@,
            StoreError::Io(m) => m@,
        }
    }

    /// A human-readable description of the failure.
    pub fn message(&self) -> (r: String)
        ensures
            r@ == self.spec_message(),
    {
        match self {
            StoreError::SizeLimitExceeded => "Size limit exceeded".to_owned(),
            StoreError::TokenNotFound => "Token not found".to_owned(),
            StoreError::Io(m) => m.clone(),
        }
    }
}

impl RepositoryError {
    /// The message that [`Self::message`] returns.
    pub open spec fn spec_message(self) -> Seq<char> {
        match self {
            RepositoryError::Backend(m) => m@,
            RepositoryError::Constraint(m) => m@,
        }
    }

    /// A human-readable description of the failure.
    pub fn message(&self) -> (r: String)
        ensures
            r@ == self.spec_message(),
    {
        match self {
            RepositoryError::Backend(m) => m.clone(),
            RepositoryError::Constraint(m) => m.clone(),
        }
    }
}

impl Error {
    /// The message that [`Self::message`] returns.
    pub open spec fn spec_message(self) -> Seq<char> {
        match self {
            Error::RepositoryError(e) => "RepositoryError: "@ + e.spec_message(),
            Error::StoreError(e) => "StoreError: "@ + e.spec_message(),
            Error::NotFound => "File not found"@,
        }
    }

    /// A human-readable description of the failure, in the shape
    /// `"<kind>: <cause>"` for wrapped backend failures.
    pub fn message(&self) -> (r: String)
        ensures
            r@ == self.spec_message(),
    {
        match self {
            Error::RepositoryError(e) => {
                let m = e.message();
                "RepositoryError: ".to_owned().concat(m.as_str())
            },
            Error::StoreError(e) => {
                let m = e.message();
                "StoreError: ".to_owned().concat(m.as_str())
            },
            Error::NotFound => "File not found".to_owned(),
        }
    }
}

} // verus!
