//! The shapes in which the service reports request errors.  These mirror
//! the response bodies; the binary that links us fills them in from the
//! wire.

use vstd::prelude::*;

verus! {

/// One message inside a validation report.
#[derive(Debug)]
pub struct ErrorMessage {
    pub message: String,
}

/// One element of a validation report.
#[derive(Debug)]
pub struct ErrorElement {
    pub has_validation_errors: bool,
    pub validation_errors: Vec<ErrorMessage>,
}

/// An error the service reported in a response.
#[derive(Debug)]
pub enum RequestError {
    Status(StatusError),
    Validation(ValidationError),
    UnknownError,
}

/// A plain status report.
#[derive(Debug)]
pub struct StatusError {
    pub id: String,
    pub status: String,
    pub provider_name: String,
}

/// A validation failure, with the offending elements.
#[derive(Debug)]
pub struct ValidationError {
    pub error_number: i64,
    pub error_type: String,
    pub message: String,
    pub elements: Vec<ErrorElement>,
}

impl RequestError {
    /// A short description of the error's kind.
    pub fn description(&self) -> (r: &'static str)
        ensures
            r@ == self.spec_description(),
    {
        match self {
            RequestError::Status(_) => "error reported by the service",
            RequestError::Validation(_) => "validation error reported by the service",
            RequestError::UnknownError => "unrecognized error reported by the service",
        }
    }

    /// The description each kind carries.
    pub open spec fn spec_description(&self) -> Seq<char> {
        match self {
            RequestError::Status(_) => "error reported by the service"@,
            RequestError::Validation(_) => "validation error reported by the service"@,
            RequestError::UnknownError => "unrecognized error reported by the service"@,
        }
    }
}

} // verus!
