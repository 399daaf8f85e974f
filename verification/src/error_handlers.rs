//! The error bodies that the catalog's HTTP surface answers with.

use vstd::prelude::*;

verus! {

/// Represents an error response.
#[derive(Debug, Clone, PartialEq, Eq)]
pub struct Error {
    pub message: String,
    pub description: Option<String>,
    pub code: u16,
}

/// The mathematical value of an error response.
pub struct ErrorBody {
    pub message: Seq<char>,
    pub description: Option<Seq<char>>,
    pub code: int,
}

impl View for Error {
    type V = ErrorBody;

    open spec fn view(&self) -> ErrorBody {
        ErrorBody {
            message: self.message@,
            description: match self.description {
                Some(text) => Some(text@),
                None => None,
            },
            code: self.code as int,
        }
    }
}

impl Error {
    /// An error response made of its three parts.
    pub fn new(message: String, description: Option<String>, code: u16) -> (error: Error)
        ensures
            error.message == message,
            error.description == description,
            error.code == code,
    {
        Error { message, description, code }
    }
}

/// The body that answers a request for an unknown route.
pub open spec fn not_found_body(path: Seq<char>) -> ErrorBody {
    ErrorBody {
        message: "Resource not found"@,
        description: Some("The requested resource "@ + path + " was not found"@),
        code: 404,
    }
}

/// The body that answers a request whose body could not be taken as a record.
pub open spec fn unprocessable_entity_body() -> ErrorBody {
    ErrorBody {
        message: "Unprocessable entity"@,
        description: Some(
            "The request was well-formed but was unable to be followed due to semantic errors"@,
        ),
        code: 422,
    }
}

/// Handles a 404 error: the response names the path that was asked for.
pub fn not_found(path: &str) -> (error: Error)
    ensures
        error@ == not_found_body(path@),
{
    let description = String::from_str("The requested resource ").concat(path).concat(
        " was not found",
    );
    Error::new(String::from_str("Resource not found"), Some(description), 404)
}

/// Handles a 422 error: the response is always the same.
pub fn unprocessable_entity() -> (error: Error)
    ensures
        error@ == unprocessable_entity_body(),
{
    Error::new(
        String::from_str("Unprocessable entity"),
        Some(
            String::from_str(
                "The request was well-formed but was unable to be followed due to semantic errors",
            ),
        ),
        422,
    )
}

} // verus!
