use feature_flags::models::{Environment, FeatureFlag, Operator, Rule};
use feature_flags::repository::{ErrorKind, RepositoryError};
use feature_flags::resources::client_api::{found_environment, get_environment_flags_from_context, get_flags_from_context, FlagCache};
use feature_flags::resources::feature_flags_api::FeatureFlagCreateSchema;
use feature_flags::resources::CustomError;
use feature_flags::services::ServiceError;
use serde_json::Value;

fn tenant_is(value: &str) -> Vec<Rule> {
    vec![Rule { parameter: "tenant".to_string(), operator: Operator::Is(value.to_string()) }]
}

fn tenant_context(value: &str) -> serde_json::Map<String, Value> {
    let mut context = serde_json::Map::new();
    context.insert("tenant".to_string(), Value::String(value.to_string()));
    context
}

fn store_down() -> RepositoryError {
    RepositoryError::new(ErrorKind::NotFound, "down".to_string())
}

#[test]
fn custom_error_names() {
    assert_eq!(CustomError::NotFound.name(), "NotFound");
    assert_eq!(CustomError::Forbidden.name(), "Forbidden");
    assert_eq!(CustomError::Unknown.name(), "Unknown");
    assert_eq!(CustomError::ApplicationError.name(), "ApplicationError");
    assert_eq!(CustomError::Conflict.name(), "Conflict");
    assert_eq!(CustomError::NoContent.name(), "NoContent");
    assert_eq!(CustomError::CreationError("disk full".to_string()).name(), "Creation error: disk full");
}

#[test]
fn custom_error_status_codes() {
    assert_eq!(CustomError::NotFound.status_code(), 404);
    assert_eq!(CustomError::Forbidden.status_code(), 403);
    assert_eq!(CustomError::Unknown.status_code(), 500);
    assert_eq!(CustomError::ApplicationError.status_code(), 500);
    assert_eq!(CustomError::Conflict.status_code(), 409);
    assert_eq!(CustomError::NoContent.status_code(), 204);
    assert_eq!(CustomError::CreationError(String::new()).status_code(), 500);
}

#[test]
fn custom_error_sentences() {
    assert_eq!(CustomError::NotFound.to_text(), "Requested file was not found");
    assert_eq!(CustomError::Forbidden.to_text(), "You are forbidden to access requested file.");
    assert_eq!(CustomError::Unknown.to_text(), "Unknown Internal Error");
    assert_eq!(CustomError::ApplicationError.to_text(), "Application error");
    assert_eq!(CustomError::Conflict.to_text(), "Conflict");
    assert_eq!(CustomError::NoContent.to_text(), "No Content");
    assert_eq!(CustomError::CreationError("x".to_string()).to_text(), "Creation error");
}

#[test]
fn error_response_carries_code_name_and_sentence() {
    let body = CustomError::Conflict.error_response();
    assert_eq!(body.code, 409);
    assert_eq!(body.error, "Conflict");
    assert_eq!(body.message, "Conflict");
    let body = CustomError::CreationError("why".to_string()).error_response();
    assert_eq!(body.code, 500);
    assert_eq!(body.error, "Creation error: why");
    assert_eq!(body.message, "Creation error");
}

#[test]
fn create_schema_describes_a_flag() {
    let schema = FeatureFlagCreateSchema {
        name: "flag_to_be_added".to_string(),
        label: "Sample Flag".to_string(),
        enabled: true,
        rules: tenant_is("tenant1"),
    };
    let flag = schema.to_flag();
    assert_eq!(flag.id, None);
    assert_eq!(flag.name, "flag_to_be_added");
    assert_eq!(flag.label, "Sample Flag");
    assert!(flag.enabled);
    assert_eq!(flag.rules, tenant_is("tenant1"));
}

#[test]
fn cache_is_filled_on_demand_and_emptied_on_change() {
    let mut cache = FlagCache::new();
    assert!(cache.get_all_flags().is_none());
    let fetched = vec![
        FeatureFlag::new("flag_1", "Flag 1", true, tenant_is("tenant1")),
        FeatureFlag::new("disabled", "Disabled", false, vec![]),
        FeatureFlag::new("flag_2", "Flag 2", true, vec![]),
    ];
    let handed = cache.refill(Ok(fetched)).unwrap();
    assert_eq!(handed.len(), 2);
    assert_eq!(handed[0].name, "flag_1");
    assert_eq!(handed[1].name, "flag_2");
    let cached = cache.get_all_flags().unwrap();
    assert_eq!(cached, handed);
    cache.invalidate();
    assert!(cache.get_all_flags().is_none());
    assert_eq!(cache.flags.len(), 0);
}

#[test]
fn failed_fetch_leaves_the_cache_alone() {
    let mut cache = FlagCache::new();
    cache.refill(Ok(vec![FeatureFlag::new("flag_1", "Flag 1", true, vec![])])).unwrap();
    let err = cache.refill(Err(store_down())).unwrap_err();
    assert_eq!(err.message, "down");
    assert_eq!(cache.get_all_flags().unwrap().len(), 1);
}

#[test]
fn client_without_environment_gets_the_enabled_flags() {
    let flags = vec![
        FeatureFlag::new("flag_1", "Flag 1", true, tenant_is("tenant1")),
        FeatureFlag::new(
            "flag_2",
            "Flag 2",
            true,
            vec![Rule {
                parameter: "user".to_string(),
                operator: Operator::IsOneOf(vec!["user_1".to_string(), "user_2".to_string()]),
            }],
        ),
    ];
    let resp = get_flags_from_context(Ok(flags), &tenant_context("tenant1")).unwrap();
    assert_eq!(resp.get("flag_1").unwrap(), &Value::Bool(true));
    assert_eq!(resp.get("flag_2").unwrap(), &Value::Bool(false));
    let err = get_flags_from_context(Err(store_down()), &tenant_context("tenant1")).unwrap_err();
    assert!(matches!(err, CustomError::ApplicationError));
}

#[test]
fn client_with_environment_gets_the_overlay() {
    let flags = vec![
        FeatureFlag::new("flag_1", "Flag 1", true, tenant_is("tenant1")),
        FeatureFlag::new(
            "flag_2",
            "Flag 2",
            true,
            vec![Rule {
                parameter: "user".to_string(),
                operator: Operator::IsOneOf(vec!["user_1".to_string(), "user_2".to_string()]),
            }],
        ),
    ];
    let mut env = Environment::new("test_env_integration");
    env.add_flag(&FeatureFlag::new("flag_1", "Flag 1", true, tenant_is("tenant1")));
    let env = found_environment(Ok(env)).unwrap();
    let resp = get_environment_flags_from_context(&env, Ok(flags), &tenant_context("tenant1")).unwrap();
    assert_eq!(resp.get("flag_1").unwrap(), &Value::Bool(true));
    assert_eq!(resp.get("flag_2").unwrap(), &Value::Bool(false));
    let err = get_environment_flags_from_context(&env, Err(store_down()), &tenant_context("tenant1")).unwrap_err();
    assert!(matches!(err, CustomError::ApplicationError));
}

#[test]
fn missing_environment_is_not_found() {
    let err = found_environment(Err(ServiceError {
        message: "Environment not found with name nowhere".to_string(),
    }))
    .unwrap_err();
    assert!(matches!(err, CustomError::NotFound));
    assert_eq!(err.status_code(), 404);
}

#[test]
fn only_a_successful_change_empties_the_cache() {
    let mut cache = FlagCache::new();
    cache.refill(Ok(vec![FeatureFlag::new("flag_1", "Flag 1", true, vec![])])).unwrap();
    let failed: Result<(), RepositoryError> = Err(store_down());
    cache.after_change(&failed);
    assert_eq!(cache.get_all_flags().unwrap().len(), 1);
    let succeeded: Result<String, RepositoryError> = Ok("507f1f77bcf86cd799439011".to_string());
    cache.after_change(&succeeded);
    assert!(cache.get_all_flags().is_none());
}
