//! Operations on environments.

use vstd::prelude::*;
use crate::models::{with_flag, without_name, Environment, EnvironmentModel, FeatureFlag};
use crate::repository::{canonical_id, is_object_id, object_id_error_text, parse_object_id};
use crate::services::ServiceError;
use crate::text::join3;

verus! {

/// What a listing of environments is narrowed by.
#[derive(Debug)]
pub struct Filters {
    pub name: Option<String>,
}

/// The result of a lookup by name, from the store's answer: the
/// environment, or an error that says that none has that name, or the
/// store's own message where the search failed. A missing environment is
/// never answered with a value.
pub fn get_by_name(name: &str, found: Result<Option<Environment>, String>) -> (r: Result<
    Environment,
    ServiceError,
>)
    ensures
        match found {
            Ok(Some(env)) => r == Ok::<Environment, ServiceError>(env),
            Ok(None) => r matches Err(e) && e.message@ == "Environment not found with name "@
                + name@,
            Err(text) => r matches Err(e) && e.message == text,
        },
{
    match found {
        Ok(Some(env)) => Ok(env),
        Ok(None) => {
            let message = join3("Environment not found with name ", name, "");
            proof {
                reveal_strlit("");
                assert(message@ =~= "Environment not found with name "@ + name@);
            }
            Err(ServiceError { message })
        },
        Err(text) => Err(ServiceError { message: text }),
    }
}

/// The environment to write back when `flag` is put into the environment
/// that was fetched under `id`: `flag` replaces a flag of the same name, the
/// identifier is set in canonical spelling, the name stays. A failed fetch
/// is handed on; an identifier that names no document is turned down with
/// the parser's message.
pub fn set_flag(fetched: Result<Environment, ServiceError>, id: &str, flag: &FeatureFlag) -> (r:
    Result<Environment, ServiceError>)
    ensures
        match fetched {
            Err(e) => r matches Err(s) && s.message == e.message,
            Ok(env) => if is_object_id(id@) {
                r matches Ok(out) && out@ == (EnvironmentModel {
                    id: Some(canonical_id(id@)),
                    name: env@.name,
                    flags: with_flag(env@.flags, flag@),
                })
            } else {
                r matches Err(s) && s.message@ == object_id_error_text(id@)
            },
        },
        fetched matches Ok(env) && env.well_formed() ==> (r matches Ok(out) ==> out.well_formed()),
{
    match fetched {
        Ok(mut env) => match parse_object_id(id) {
            Ok(hex) => {
                env.add_flag(flag);
                env.id = Some(hex);
                Ok(env)
            },
            Err(text) => Err(ServiceError { message: text }),
        },
        Err(e) => Err(e),
    }
}

/// The environment to write back when the flag named `flag_name` is taken
/// out of the environment that was fetched under `id`; the identifier is set
/// in canonical spelling, the name stays. A failed fetch is handed on; an
/// identifier that names no document is turned down with the parser's
/// message.
pub fn remove_flag(fetched: Result<Environment, ServiceError>, id: &str, flag_name: &str) -> (r:
    Result<Environment, ServiceError>)
    ensures
        match fetched {
            Err(e) => r matches Err(s) && s.message == e.message,
            Ok(env) => if is_object_id(id@) {
                r matches Ok(out) && out@ == (EnvironmentModel {
                    id: Some(canonical_id(id@)),
                    name: env@.name,
                    flags: without_name(env@.flags, flag_name@),
                })
            } else {
                r matches Err(s) && s.message@ == object_id_error_text(id@)
            },
        },
        fetched matches Ok(env) && env.well_formed() ==> (r matches Ok(out) ==> out.well_formed()),
{
    match fetched {
        Ok(mut env) => match parse_object_id(id) {
            Ok(hex) => {
                env.remove_flag_by_name(flag_name);
                env.id = Some(hex);
                Ok(env)
            },
            Err(text) => Err(ServiceError { message: text }),
        },
        Err(e) => Err(e),
    }
}

} // verus!
