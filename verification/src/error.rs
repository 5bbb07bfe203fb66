//! The error taxonomy of the service and its mapping to HTTP status codes.

use vstd::prelude::*;

verus! {

/// How a request can fail.
///
/// Every handler reports one of these; a successful handler result is mapped
/// to status 200 by the HTTP layer.
#[derive(Clone, Copy, Debug, PartialEq, Eq, Structural)]
pub enum ApiError {
    /// A referenced entity does not exist in the store.
    NotFound,
    /// A unique field (the username) is already taken.
    Conflict,
    /// The store itself failed the operation.
    Internal,
    /// The request exceeded the global time budget (raised by middleware,
    /// never by a handler).
    Timeout,
}

impl ApiError {
    /// The HTTP status code each error maps to.
    pub open spec fn spec_status_code(self) -> u16 {
        match self {
            ApiError::NotFound => 404,
            ApiError::Conflict => 409,
            ApiError::Internal => 500,
            ApiError::Timeout => 408,
        }
    }

    pub fn status_code(&self) -> (code: u16)
        ensures
            code == self.spec_status_code(),
    {
        match self {
            ApiError::NotFound => 404,
            ApiError::Conflict => 409,
            ApiError::Internal => 500,
            ApiError::Timeout => 408,
        }
    }

    /// What the message of each error says.
    pub open spec fn spec_message(self) -> Seq<char> {
        match self {
            ApiError::NotFound => "could not find the requested entity"@,
            ApiError::Conflict => "entity already exists"@,
            ApiError::Internal => "the store could not complete the operation"@,
            ApiError::Timeout => "the request timed out"@,
        }
    }

    /// A human-readable description for the response body.
    pub fn message(&self) -> (msg: &'static str)
        ensures
            msg@ == self.spec_message(),
    {
        match self {
            ApiError::NotFound => "could not find the requested entity",
            ApiError::Conflict => "entity already exists",
            ApiError::Internal => "the store could not complete the operation",
            ApiError::Timeout => "the request timed out",
        }
    }
}

} // verus!
