//! Operations on flags.

use vstd::prelude::*;
use crate::models::{copy_rules, rule_models, FeatureFlag, FlagModel, Rule};
use crate::repository::RepositoryError;
use crate::services::ServiceError;

verus! {

/// What a listing of flags is narrowed by.
#[derive(Debug)]
pub struct Filters {
    pub name: Option<String>,
    pub label: Option<String>,
}

/// The flag to insert for a new definition: without identifier, stamped
/// with the current time.
pub fn create(name: &str, label: &str, enabled: bool, rules: &Vec<Rule>) -> (r: FeatureFlag)
    ensures
        r@.id is None,
        r@.name == name@,
        r@.label == label@,
        r@.enabled == enabled,
        r@.rules == rule_models(rules@),
{
    FeatureFlag::new(name, label, enabled, copy_rules(rules))
}

/// The flag to write back when the flag that was fetched gets a new label,
/// switch and rules: everything else stays as it was fetched. A failed
/// fetch is handed on with the repository's message.
pub fn update(
    fetched: Result<FeatureFlag, RepositoryError>,
    label: &str,
    enabled: bool,
    rules: Vec<Rule>,
) -> (r: Result<FeatureFlag, ServiceError>)
    ensures
        match fetched {
            Ok(flag) => r matches Ok(out) && out@ == (FlagModel {
                label: label@,
                enabled,
                rules: rule_models(rules@),
                ..flag@
            }),
            Err(e) => r matches Err(s) && s.message == e.message,
        },
{
    match fetched {
        Ok(mut flag) => {
            flag.label = label.to_owned();
            flag.enabled = enabled;
            flag.rules = rules;
            Ok(flag)
        },
        Err(e) => Err(ServiceError { message: e.message }),
    }
}

} // verus!
