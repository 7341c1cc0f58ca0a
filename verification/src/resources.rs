//! What the program answers to its callers: the errors it reports, and the
//! decisions behind the answers of its interfaces.

pub mod client_api;
pub mod environments_api;
pub mod feature_flags_api;

use vstd::prelude::*;
use crate::services::ServiceError;
use crate::text::join3;

verus! {

/// An error as the program's interface reports it.
#[derive(Debug)]
pub enum CustomError {
    NotFound,
    Forbidden,
    Unknown,
    ApplicationError,
    Conflict,
    NoContent,
    CreationError(String),
}

/// An error as it is written into an answer.
#[derive(Debug)]
pub struct ErrorResponse {
    pub code: u16,
    pub error: String,
    pub message: String,
}

impl CustomError {
    /// The name of each kind of error; a creation error carries its cause.
    pub open spec fn name_text(&self) -> Seq<char> {
        match self {
            Self::NotFound => "NotFound"@,
            Self::Forbidden => "Forbidden"@,
            Self::Unknown => "Unknown"@,
            Self::ApplicationError => "ApplicationError"@,
            Self::Conflict => "Conflict"@,
            Self::NoContent => "NoContent"@,
            Self::CreationError(cause) => "Creation error: "@ + cause@,
        }
    }

    /// The sentence that describes each kind of error.
    pub open spec fn message_text(&self) -> Seq<char> {
        match self {
            Self::NotFound => "Requested file was not found"@,
            Self::Forbidden => "You are forbidden to access requested file."@,
            Self::Unknown => "Unknown Internal Error"@,
            Self::ApplicationError => "Application error"@,
            Self::Conflict => "Conflict"@,
            Self::NoContent => "No Content"@,
            Self::CreationError(_) => "Creation error"@,
        }
    }

    /// The HTTP status of each kind of error.
    pub open spec fn status(&self) -> int {
        match self {
            Self::NotFound => 404,
            Self::Forbidden => 403,
            Self::Unknown => 500,
            Self::ApplicationError => 500,
            Self::Conflict => 409,
            Self::NoContent => 204,
            Self::CreationError(_) => 500,
        }
    }

    /// The name of the error's kind.
    pub fn name(&self) -> (r: String)
        ensures
            r@ == self.name_text(),
    {
        match self {
            Self::NotFound => "NotFound".to_owned(),
            Self::Forbidden => "Forbidden".to_owned(),
            Self::Unknown => "Unknown".to_owned(),
            Self::ApplicationError => "ApplicationError".to_owned(),
            Self::Conflict => "Conflict".to_owned(),
            Self::NoContent => "NoContent".to_owned(),
            Self::CreationError(cause) => {
                let r = join3("Creation error: ", cause.as_str(), "");
                proof {
                    reveal_strlit("");
                    assert(r@ =~= "Creation error: "@ + cause@);
                }
                r
            },
        }
    }

    /// The sentence that describes the error.
    pub fn to_text(&self) -> (r: String)
        ensures
            r@ == self.message_text(),
    {
        match self {
            Self::NotFound => "Requested file was not found".to_owned(),
            Self::Forbidden => "You are forbidden to access requested file.".to_owned(),
            Self::Unknown => "Unknown Internal Error".to_owned(),
            Self::ApplicationError => "Application error".to_owned(),
            Self::Conflict => "Conflict".to_owned(),
            Self::NoContent => "No Content".to_owned(),
            Self::CreationError(_) => "Creation error".to_owned(),
        }
    }

    /// The HTTP status that the error is answered with.
    pub fn status_code(&self) -> (r: u16)
        ensures
            r == self.status(),
    {
        match self {
            Self::NotFound => 404,
            Self::Forbidden => 403,
            Self::Unknown => 500,
            Self::ApplicationError => 500,
            Self::Conflict => 409,
            Self::NoContent => 204,
            Self::CreationError(_) => 500,
        }
    }

    /// The body that the error is answered with.
    pub fn error_response(&self) -> (r: ErrorResponse)
        ensures
            r.code == self.status(),
            r.error@ == self.name_text(),
            r.message@ == self.message_text(),
    {
        ErrorResponse { code: self.status_code(), message: self.to_text(), error: self.name() }
    }
}

/// The answer to a caller of an operation whose failure is reported as
/// `failure`: the service's value, or `failure` in place of the service's
/// error.
pub fn answered<T>(result: Result<T, ServiceError>, failure: CustomError) -> (r: Result<
    T,
    CustomError,
>)
    ensures
        match result {
            Ok(value) => r == Ok::<T, CustomError>(value),
            Err(_) => r == Err::<T, CustomError>(failure),
        },
{
    match result {
        Ok(value) => Ok(value),
        Err(_) => Err(failure),
    }
}

/// What a listing shows: what was found, or nothing where the search
/// failed. Only listings turn a failure into an empty answer.
pub fn listed<T>(found: Result<Vec<T>, ServiceError>) -> (r: Vec<T>)
    ensures
        match found {
            Ok(items) => r == items,
            Err(_) => r@ == Seq::<T>::empty(),
        },
{
    match found {
        Ok(items) => items,
        Err(_) => Vec::new(),
    }
}

} // verus!
