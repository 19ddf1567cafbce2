use vstd::prelude::*;

verus! {

/// Error kinds surfaced by the core. Repository operations hand the specific
/// kind to the handler layer unmodified; handlers translate kinds to HTTP
/// status codes with no retry.
#[derive(Clone, Copy, PartialEq, Eq, Structural, Debug)]
pub enum ServiceError {
    /// A cursor or path identifier string that does not parse for the
    /// expected entity kind.
    MalformedIdentifier,
    /// A point lookup or parent-scope miss.
    NotFound,
    /// A storage constraint violation (duplicate key, missing referent).
    Conflict,
    /// An unexpected storage failure.
    InternalError,
}

impl ServiceError {
    /// The HTTP status code a handler answers with for this error kind:
    /// a malformed identifier is a client error, a miss is not-found, and
    /// storage failures are server errors.
    pub fn status_code(&self) -> (code: u16)
        ensures
            code == match *self {
                ServiceError::MalformedIdentifier => 400u16,
                ServiceError::NotFound => 404u16,
                ServiceError::Conflict => 500u16,
                ServiceError::InternalError => 500u16,
            },
    {
        match self {
            ServiceError::MalformedIdentifier => 400,
            ServiceError::NotFound => 404,
            ServiceError::Conflict => 500,
            ServiceError::InternalError => 500,
        }
    }
}

} // verus!
