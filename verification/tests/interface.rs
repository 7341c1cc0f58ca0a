use feature_flags::models::{Environment, FeatureFlag};
use feature_flags::resources::environments_api;
use feature_flags::resources::feature_flags_api;
use feature_flags::resources::{answered, listed, CustomError};
use feature_flags::services::ServiceError;

const ID: &str = "507f1f77bcf86cd799439011";

fn failed<T>() -> Result<T, ServiceError> {
    Err(ServiceError { message: "down".to_string() })
}

#[test]
fn a_failure_is_reported_as_the_operations_error() {
    assert_eq!(answered(Ok(4u8), CustomError::Conflict).unwrap(), 4);
    let err = answered(failed::<u8>(), CustomError::Conflict).unwrap_err();
    assert!(matches!(err, CustomError::Conflict));
    let err = answered(failed::<u8>(), CustomError::CreationError("why".to_string())).unwrap_err();
    assert_eq!(err.name(), "Creation error: why");
}

#[test]
fn only_a_listing_turns_a_failure_into_nothing() {
    assert_eq!(listed(Ok(vec![1, 2, 3])), vec![1, 2, 3]);
    assert_eq!(listed(failed::<Vec<i32>>()), Vec::<i32>::new());
    assert_eq!(environments_api::find(failed()).len(), 0);
    assert_eq!(environments_api::find(Ok(vec![Environment::new("dev")])).len(), 1);
    assert_eq!(feature_flags_api::find(failed()).len(), 0);
    let flags = feature_flags_api::find(Ok(vec![FeatureFlag::new("a", "A", true, vec![])]));
    assert_eq!(flags.len(), 1);
    assert_eq!(flags[0].name, "a");
}

#[test]
fn created_environment_carries_the_stores_id() {
    let env = environments_api::create("dev_integration_test", Ok(ID.to_uppercase())).unwrap();
    assert_eq!(env.name, "dev_integration_test");
    assert_eq!(env.id, Some(ID.to_string()));
    assert_eq!(env.flags.len(), 0);
    let err = environments_api::create("dev_integration_test", failed()).unwrap_err();
    assert!(matches!(err, CustomError::Conflict));
    assert_eq!(err.status_code(), 409);
    let err = environments_api::create("dev_integration_test", Ok("?".to_string())).unwrap_err();
    assert!(matches!(err, CustomError::ApplicationError));
}

#[test]
fn fetched_environment_carries_the_id_it_was_asked_under() {
    let mut stored = Environment::new("dev");
    stored.add_flag(&FeatureFlag::new("f", "F", true, vec![]));
    let env = environments_api::get(ID, Ok(stored)).unwrap();
    assert_eq!(env.id, Some(ID.to_string()));
    assert_eq!(env.name, "dev");
    assert_eq!(env.flags.len(), 1);
    assert!(matches!(environments_api::get(ID, failed()).unwrap_err(), CustomError::NotFound));
    assert!(matches!(
        environments_api::get("nope", Ok(Environment::new("dev"))).unwrap_err(),
        CustomError::NotFound
    ));
}

#[test]
fn environment_is_removed_only_after_both_steps() {
    let env = environments_api::delete(Ok(Environment::new("dev")), Some(Ok(()))).unwrap();
    assert_eq!(env.name, "dev");
    let err = environments_api::delete(Ok(Environment::new("dev")), Some(failed())).unwrap_err();
    assert!(matches!(err, CustomError::NotFound));
    let err = environments_api::delete(Ok(Environment::new("dev")), None).unwrap_err();
    assert!(matches!(err, CustomError::NotFound));
    let err = environments_api::delete(failed(), None).unwrap_err();
    assert!(matches!(err, CustomError::NotFound));
    let err = environments_api::delete(failed(), Some(Ok(()))).unwrap_err();
    assert!(matches!(err, CustomError::NotFound));
}

#[test]
fn changed_environment_or_not_found() {
    assert_eq!(environments_api::set_flag(Ok(Environment::new("dev"))).unwrap().name, "dev");
    assert!(matches!(environments_api::set_flag(failed()).unwrap_err(), CustomError::NotFound));
    assert_eq!(environments_api::remove_flag(Ok(Environment::new("dev"))).unwrap().name, "dev");
    assert!(matches!(environments_api::remove_flag(failed()).unwrap_err(), CustomError::NotFound));
}

#[test]
fn flag_answers_follow_the_operation() {
    let flag = feature_flags_api::get(ID, Ok(FeatureFlag::new("a", "A", true, vec![]))).unwrap();
    assert_eq!(flag.id, Some(ID.to_string()));
    assert_eq!(flag.name, "a");
    assert!(matches!(feature_flags_api::get(ID, failed()).unwrap_err(), CustomError::NotFound));
    assert!(matches!(
        feature_flags_api::get("12", Ok(FeatureFlag::new("a", "A", true, vec![]))).unwrap_err(),
        CustomError::NotFound
    ));
    assert_eq!(feature_flags_api::create(Ok(ID.to_string())).unwrap(), ID);
    assert!(matches!(feature_flags_api::create(failed()).unwrap_err(), CustomError::Conflict));
    assert!(feature_flags_api::update(Ok(())).is_ok());
    assert!(matches!(feature_flags_api::update(failed()).unwrap_err(), CustomError::Conflict));
    assert!(feature_flags_api::delete(Ok(())).is_ok());
    assert!(matches!(feature_flags_api::delete(failed()).unwrap_err(), CustomError::NotFound));
    let shown = feature_flags_api::stored_flag(Ok(FeatureFlag::new("a", "Updated Label", true, vec![])));
    assert_eq!(shown.unwrap().label, "Updated Label");
    assert!(matches!(
        feature_flags_api::stored_flag(failed()).unwrap_err(),
        CustomError::ApplicationError
    ));
}
