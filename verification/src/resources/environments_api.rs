//! The answers to callers that manage environments.

use vstd::prelude::*;
use crate::models::{Environment, EnvironmentModel};
use crate::repository::{canonical_id, is_object_id, parse_object_id};
use crate::resources::{answered, listed, CustomError};
use crate::services::ServiceError;

verus! {

/// The listing of all environments: what the search found, or nothing
/// where it failed.
pub fn find(found: Result<Vec<Environment>, ServiceError>) -> (r: Vec<Environment>)
    ensures
        match found {
            Ok(items) => r == items,
            Err(_) => r@ == Seq::<Environment>::empty(),
        },
{
    listed(found)
}

/// The answer to the creation of an environment named `name`: the new
/// environment, without flags, under the identifier that the store gave
/// it. Where the service refused, the answer is `Conflict`; where the
/// store's identifier is malformed, an application error.
pub fn create(name: &str, created: Result<String, ServiceError>) -> (r: Result<
    Environment,
    CustomError,
>)
    ensures
        match created {
            Ok(id) => if is_object_id(id@) {
                r matches Ok(env) && env@ == (EnvironmentModel {
                    id: Some(canonical_id(id@)),
                    name: name@,
                    flags: Seq::empty(),
                })
            } else {
                r matches Err(CustomError::ApplicationError)
            },
            Err(_) => r matches Err(CustomError::Conflict),
        },
{
    match created {
        Ok(id) => match parse_object_id(id.as_str()) {
            Ok(hex) => {
                let mut env = Environment::new(name);
                env.id = Some(hex);
                Ok(env)
            },
            Err(_) => Err(CustomError::ApplicationError),
        },
        Err(_) => Err(CustomError::Conflict),
    }
}

/// The answer to a request for the environment under `id`: the environment
/// that was fetched, with the identifier in canonical spelling, or
/// `NotFound` where the fetch failed or the identifier names no document.
pub fn get(id: &str, fetched: Result<Environment, ServiceError>) -> (r: Result<
    Environment,
    CustomError,
>)
    ensures
        match fetched {
            Ok(env) => if is_object_id(id@) {
                r matches Ok(out) && out@ == (EnvironmentModel {
                    id: Some(canonical_id(id@)),
                    ..env@
                })
            } else {
                r matches Err(CustomError::NotFound)
            },
            Err(_) => r matches Err(CustomError::NotFound),
        },
{
    match fetched {
        Ok(mut env) => match parse_object_id(id) {
            Ok(hex) => {
                env.id = Some(hex);
                Ok(env)
            },
            Err(_) => Err(CustomError::NotFound),
        },
        Err(_) => Err(CustomError::NotFound),
    }
}

/// The answer to the removal of an environment, from the fetch that went
/// before it and the removal itself: `NotFound` where either failed. The
/// removal counts only where the fetch succeeded.
pub fn delete(
    fetched: Result<Environment, ServiceError>,
    deleted: Option<Result<(), ServiceError>>,
) -> (r: Result<Environment, CustomError>)
    ensures
        match (fetched, deleted) {
            (Ok(env), Some(Ok(_))) => r == Ok::<Environment, CustomError>(env),
            _ => r matches Err(CustomError::NotFound),
        },
{
    match fetched {
        Ok(env) => match deleted {
            Some(Ok(_)) => Ok(env),
            _ => Err(CustomError::NotFound),
        },
        Err(_) => Err(CustomError::NotFound),
    }
}

/// The answer to a flag put into an environment: the environment as it was
/// written, or `NotFound` where the service failed.
pub fn set_flag(changed: Result<Environment, ServiceError>) -> (r: Result<Environment, CustomError>)
    ensures
        match changed {
            Ok(env) => r == Ok::<Environment, CustomError>(env),
            Err(_) => r matches Err(CustomError::NotFound),
        },
{
    answered(changed, CustomError::NotFound)
}

/// The answer to a flag taken out of an environment: the environment as it
/// was written, or `NotFound` where the service failed.
pub fn remove_flag(changed: Result<Environment, ServiceError>) -> (r: Result<
    Environment,
    CustomError,
>)
    ensures
        match changed {
            Ok(env) => r == Ok::<Environment, CustomError>(env),
            Err(_) => r matches Err(CustomError::NotFound),
        },
{
    answered(changed, CustomError::NotFound)
}

} // verus!
