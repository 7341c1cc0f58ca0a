//! The definitions of flags as callers send them.

use vstd::prelude::*;
use crate::models::{copy_rules, rule_models, FeatureFlag, FlagModel, Rule};
use crate::repository::{canonical_id, is_object_id, parse_object_id};
use crate::resources::{answered, listed, CustomError};
use crate::services::ServiceError;

verus! {

/// A flag as a caller defines it: everything but what the store and the
/// clock add.
#[derive(Debug)]
pub struct FeatureFlagCreateSchema {
    pub name: String,
    pub label: String,
    pub enabled: bool,
    pub rules: Vec<Rule>,
}

impl FeatureFlagCreateSchema {
    /// The flag that the definition describes: without identifier, stamped
    /// with the current time.
    pub fn to_flag(&self) -> (r: FeatureFlag)
        ensures
            r@.id is None,
            r@.name == self.name@,
            r@.label == self.label@,
            r@.enabled == self.enabled,
            r@.rules == rule_models(self.rules@),
    {
        FeatureFlag::new(
            self.name.as_str(),
            self.label.as_str(),
            self.enabled,
            copy_rules(&self.rules),
        )
    }
}

/// The changes to a flag as a caller sends them.
#[derive(Debug)]
pub struct FeatureFlagUpdateSchema {
    pub label: String,
    pub enabled: bool,
    pub rules: Vec<Rule>,
}

/// The listing of all flags: what the search found, or nothing where it
/// failed.
pub fn find(found: Result<Vec<FeatureFlag>, ServiceError>) -> (r: Vec<FeatureFlag>)
    ensures
        match found {
            Ok(items) => r == items,
            Err(_) => r@ == Seq::<FeatureFlag>::empty(),
        },
{
    listed(found)
}

/// The answer to a request for the flag under `id`: the flag that was
/// fetched, with the identifier in canonical spelling, or `NotFound` where
/// the fetch failed or the identifier names no document.
pub fn get(id: &str, fetched: Result<FeatureFlag, ServiceError>) -> (r: Result<
    FeatureFlag,
    CustomError,
>)
    ensures
        match fetched {
            Ok(flag) => if is_object_id(id@) {
                r matches Ok(out) && out@ == (FlagModel { id: Some(canonical_id(id@)), ..flag@ })
            } else {
                r matches Err(CustomError::NotFound)
            },
            Err(_) => r matches Err(CustomError::NotFound),
        },
{
    match fetched {
        Ok(mut flag) => match parse_object_id(id) {
            Ok(hex) => {
                flag.id = Some(hex);
                Ok(flag)
            },
            Err(_) => Err(CustomError::NotFound),
        },
        Err(_) => Err(CustomError::NotFound),
    }
}

/// The answer to the creation of a flag: the identifier it was stored
/// under, or `Conflict` where the service refused.
pub fn create(created: Result<String, ServiceError>) -> (r: Result<String, CustomError>)
    ensures
        match created {
            Ok(id) => r == Ok::<String, CustomError>(id),
            Err(_) => r matches Err(CustomError::Conflict),
        },
{
    answered(created, CustomError::Conflict)
}

/// The answer to the change of a flag: `Conflict` where the service
/// refused.
pub fn update(updated: Result<(), ServiceError>) -> (r: Result<(), CustomError>)
    ensures
        match updated {
            Ok(_) => r is Ok,
            Err(_) => r matches Err(CustomError::Conflict),
        },
{
    answered(updated, CustomError::Conflict)
}

/// The flag that is shown after it was created or changed, from the fetch
/// that followed: a fetch that failed is an application error.
pub fn stored_flag(fetched: Result<FeatureFlag, ServiceError>) -> (r: Result<
    FeatureFlag,
    CustomError,
>)
    ensures
        match fetched {
            Ok(flag) => r == Ok::<FeatureFlag, CustomError>(flag),
            Err(_) => r matches Err(CustomError::ApplicationError),
        },
{
    answered(fetched, CustomError::ApplicationError)
}

/// The answer to the removal of a flag: `NotFound` where the service
/// failed.
pub fn delete(deleted: Result<(), ServiceError>) -> (r: Result<(), CustomError>)
    ensures
        match deleted {
            Ok(_) => r is Ok,
            Err(_) => r matches Err(CustomError::NotFound),
        },
{
    answered(deleted, CustomError::NotFound)
}

} // verus!
