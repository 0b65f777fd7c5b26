//! Error kinds shared by the catalog, packaging and disk-quota components.

use vstd::prelude::*;

verus! {

/// What can go wrong in a catalog, packaging or quota operation.
#[derive(Debug, Clone, PartialEq, Eq)]
pub enum Error {
    /// The named path does not exist (or is not of the expected kind).
    NotFound(String),
    /// The named path escapes every confined root, so mutation is refused.
    NotAllowed(String),
    /// The target of a creation already exists.
    AlreadyExists(String),
    /// A packaging task is already active, so a second one cannot start.
    AlreadyInProgress,
    /// An underlying filesystem operation failed.
    IOFailure(String),
    /// Encoding or writing the archive failed.
    FormatFailure(String),
}

impl Error {
    /// A short description of the error, with the offending path or message.
    pub fn message(&self) -> (r: &str)
        ensures
            match self {
                Error::NotFound(m) => r@ == m@,
                Error::NotAllowed(m) => r@ == m@,
                Error::AlreadyExists(m) => r@ == m@,
                Error::AlreadyInProgress => r@ == "a packaging task is already in progress"@,
                Error::IOFailure(m) => r@ == m@,
                Error::FormatFailure(m) => r@ == m@,
            },
    {
        match self {
            Error::NotFound(m) => m.as_str(),
            Error::NotAllowed(m) => m.as_str(),
            Error::AlreadyExists(m) => m.as_str(),
            Error::AlreadyInProgress => "a packaging task is already in progress",
            Error::IOFailure(m) => m.as_str(),
            Error::FormatFailure(m) => m.as_str(),
        }
    }
}

} // verus!
