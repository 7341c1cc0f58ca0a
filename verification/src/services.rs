//! The operations that the program offers on flags and environments, as far
//! as they decide anything: what is written to the store, and what each
//! answer of the store means to the caller.

pub mod environment_handlers;
pub mod feature_flag_handlers;

use vstd::prelude::*;
use crate::repository::RepositoryError;

verus! {

/// A failed service operation, with a text for the caller.
#[derive(Debug)]
pub struct ServiceError {
    pub message: String,
}

impl Clone for ServiceError {
    fn clone(&self) -> (r: Self)
        ensures
            r.message@ == self.message@,
    {
        ServiceError { message: self.message.clone() }
    }
}

impl ServiceError {
    /// The error's text.
    pub fn to_text(&self) -> (r: String)
        ensures
            r@ == self.message@,
    {
        self.message.clone()
    }
}

/// What a repository's result is to the caller of a service: the same value,
/// or an error with the repository's message.
pub open spec fn carried_over<T>(
    from: Result<T, RepositoryError>,
    to: Result<T, ServiceError>,
) -> bool {
    match from {
        Ok(value) => to == Ok::<T, ServiceError>(value),
        Err(e) => to matches Err(s) && s.message == e.message,
    }
}

/// Hands a repository's result on to the caller of a service. A failure is
/// never turned into a value.
pub fn service_result<T>(from: Result<T, RepositoryError>) -> (to: Result<T, ServiceError>)
    ensures
        carried_over(from, to),
{
    match from {
        Ok(value) => Ok(value),
        Err(e) => Err(ServiceError { message: e.message }),
    }
}

/// The result of an operation that wrote `value` to the store: `value`
/// where the write succeeded, else the repository's message.
pub fn written<T>(value: T, outcome: Result<(), RepositoryError>) -> (r: Result<T, ServiceError>)
    ensures
        match outcome {
            Ok(_) => r == Ok::<T, ServiceError>(value),
            Err(e) => r matches Err(s) && s.message == e.message,
        },
{
    match outcome {
        Ok(_) => Ok(value),
        Err(e) => Err(ServiceError { message: e.message }),
    }
}

} // verus!
