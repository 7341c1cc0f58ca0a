use feature_flags::models::{Environment, FeatureFlag, Operator, Rule};
use feature_flags::repository::{ErrorKind, RepositoryError};
use feature_flags::services::environment_handlers;
use feature_flags::services::feature_flag_handlers;
use feature_flags::services::{service_result, written, ServiceError};

const ID: &str = "507f1f77bcf86cd799439011";

fn not_found(message: &str) -> RepositoryError {
    RepositoryError::new(ErrorKind::NotFound, message.to_string())
}

#[test]
fn service_hands_values_and_messages_on() {
    let ok: Result<u32, RepositoryError> = Ok(5);
    assert_eq!(service_result(ok).unwrap(), 5);
    let err: Result<u32, RepositoryError> = Err(not_found("Entity not found"));
    let e = service_result(err).unwrap_err();
    assert_eq!(e.message, "Entity not found");
    assert_eq!(e.to_text(), "Entity not found");
    assert_eq!(e.clone().message, "Entity not found");
}

#[test]
fn written_value_comes_back_only_after_a_successful_write() {
    assert_eq!(written(9u8, Ok(())).unwrap(), 9);
    assert_eq!(written(9u8, Err(not_found("gone"))).unwrap_err().message, "gone");
}

#[test]
fn get_by_name_reports_a_missing_environment() {
    let found = environment_handlers::get_by_name("dev", Ok(Some(Environment::new("dev")))).unwrap();
    assert_eq!(found.name, "dev");
    let missing = environment_handlers::get_by_name("dev", Ok(None)).unwrap_err();
    assert_eq!(missing.message, "Environment not found with name dev");
    let failed = environment_handlers::get_by_name("dev", Err("down".to_string())).unwrap_err();
    assert_eq!(failed.message, "down");
}

#[test]
fn set_flag_puts_the_flag_in_and_sets_the_id() {
    let mut stored = Environment::new("services_test_env");
    stored.add_flag(&FeatureFlag::new("flag_to_be_managed", "Old", false, vec![]));
    stored.add_flag(&FeatureFlag::new("other", "Other", true, vec![]));
    let flag = FeatureFlag::new("flag_to_be_managed", "Flag to be managed", true, vec![]);
    let env = environment_handlers::set_flag(Ok(stored), "507F1F77BCF86CD799439011", &flag).unwrap();
    assert_eq!(env.id, Some(ID.to_string()));
    assert_eq!(env.name, "services_test_env");
    assert_eq!(env.flags.len(), 2);
    assert_eq!(env.flags[0].name, "other");
    assert_eq!(env.flags[1].label, "Flag to be managed");
    assert!(env.flags[1].enabled);

    let env = environment_handlers::remove_flag(Ok(env), ID, "flag_to_be_managed").unwrap();
    assert_eq!(env.id, Some(ID.to_string()));
    assert_eq!(env.flags.len(), 1);
    assert_eq!(env.flags[0].name, "other");
}

#[test]
fn set_flag_hands_a_failed_fetch_on() {
    let flag = FeatureFlag::new("f", "F", true, vec![]);
    let failed = Err(ServiceError { message: "Entity not found".to_string() });
    let err = environment_handlers::set_flag(failed, ID, &flag).unwrap_err();
    assert_eq!(err.message, "Entity not found");
    let failed = Err(ServiceError { message: "Entity not found".to_string() });
    let err = environment_handlers::remove_flag(failed, ID, "f").unwrap_err();
    assert_eq!(err.message, "Entity not found");
}

#[test]
fn set_flag_turns_down_a_malformed_id() {
    let flag = FeatureFlag::new("f", "F", true, vec![]);
    let err = environment_handlers::set_flag(Ok(Environment::new("e")), "12", &flag).unwrap_err();
    assert_eq!(
        err.message,
        "provided hex string representation must be exactly 12 bytes, instead got: \"12\", length 2"
    );
    assert!(environment_handlers::remove_flag(Ok(Environment::new("e")), "zz", "f").is_err());
}

#[test]
fn create_builds_the_flag_to_insert() {
    let rules = vec![Rule {
        parameter: "tenant".to_string(),
        operator: Operator::Is("tenant1".to_string()),
    }];
    let flag = feature_flag_handlers::create(
        "feature_flag_handlers_test",
        "Feature Flag handlers test",
        false,
        &rules,
    );
    assert_eq!(flag.id, None);
    assert_eq!(flag.name, "feature_flag_handlers_test");
    assert_eq!(flag.label, "Feature Flag handlers test");
    assert!(!flag.enabled);
    assert_eq!(flag.rules.len(), 1);
    assert_eq!(flag.rules, rules);
}

#[test]
fn update_changes_label_switch_and_rules_only() {
    let mut stored = FeatureFlag::stamped("feature_flag_handlers_test_update", "test", false, vec![], 11, 12);
    stored.id = Some(ID.to_string());
    let rules = vec![Rule {
        parameter: "tenant".to_string(),
        operator: Operator::IsNotOneOf(vec!["a".to_string()]),
    }];
    let flag = feature_flag_handlers::update(Ok(stored), "new_label", true, rules).unwrap();
    assert_eq!(flag.label, "new_label");
    assert!(flag.enabled);
    assert_eq!(flag.rules.len(), 1);
    assert_eq!(flag.name, "feature_flag_handlers_test_update");
    assert_eq!(flag.id, Some(ID.to_string()));
    assert_eq!(flag.created_at, 11);
    assert_eq!(flag.updated_at, 12);
    let err = feature_flag_handlers::update(Err(not_found("Entity not found")), "l", true, vec![]).unwrap_err();
    assert_eq!(err.message, "Entity not found");
}

#[test]
fn filters_hold_what_they_were_given() {
    let by_name = environment_handlers::Filters { name: Some("dev".to_string()) };
    assert_eq!(by_name.name.as_deref(), Some("dev"));
    let by_label = feature_flag_handlers::Filters { name: None, label: Some("L".to_string()) };
    assert_eq!(by_label.name, None);
    assert_eq!(by_label.label.as_deref(), Some("L"));
}
