//! The failures an operation can end in.

use vstd::prelude::*;

verus! {

/// Why an operation did not produce a result.
#[derive(Clone, Copy, Debug, PartialEq, Eq, Structural)]
pub enum ServiceError {
    /// The key-value table reported a failure, or answered a request with a
    /// reply of the wrong kind.
    Store,
    /// No record is stored under the requested id.
    NotFound,
    /// The presented secret is not the one stored with the record.
    Unauthorized,
    /// Stored bytes are not the encoding of a record.
    Decode,
}

impl ServiceError {
    /// The HTTP status that reports this failure.
    pub open spec fn spec_http_status(self) -> u16 {
        match self {
            ServiceError::Store => 500,
            ServiceError::NotFound => 404,
            ServiceError::Unauthorized => 401,
            ServiceError::Decode => 500,
        }
    }

    /// The HTTP status that reports this failure: 404 for an unknown id, 401
    /// for a wrong secret, 500 for everything the caller cannot correct.
    #[verifier::when_used_as_spec(spec_http_status)]
    pub fn http_status(self) -> (code: u16)
        ensures
            code == self.spec_http_status(),
    {
        match self {
            ServiceError::Store => 500,
            ServiceError::NotFound => 404,
            ServiceError::Unauthorized => 401,
            ServiceError::Decode => 500,
        }
    }
}

} // verus!
