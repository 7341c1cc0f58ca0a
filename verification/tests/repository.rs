use feature_flags::models::Environment;
use feature_flags::repository::{delete_outcome, document_id, ensure_unique, find_outcome, get_outcome, update_outcome, ErrorKind, RepositoryError};

#[test]
fn repository_error_keeps_kind_and_message() {
    let e = RepositoryError::new(ErrorKind::AlreadyExists, "taken".to_string());
    assert_eq!(e.kind, ErrorKind::AlreadyExists);
    assert_eq!(e.message, "taken");
    assert_eq!(e.to_text(), "taken");
    let copy = e.clone();
    assert_eq!(copy.kind, ErrorKind::AlreadyExists);
    assert_eq!(copy.message, "taken");
    assert_ne!(ErrorKind::NotFound, ErrorKind::AlreadyExists);
}

#[test]
fn document_id_accepts_24_hex_digits() {
    assert_eq!(
        document_id("507f1f77bcf86cd799439011").unwrap(),
        "507f1f77bcf86cd799439011"
    );
    assert_eq!(
        document_id("507F1F77BCF86CD799439011").unwrap(),
        "507f1f77bcf86cd799439011"
    );
    assert_eq!(
        document_id("ABCDEFabcdef0123456789aB").unwrap(),
        "abcdefabcdef0123456789ab"
    );
}

#[test]
fn document_id_turns_down_a_malformed_identifier() {
    let short = document_id("abc").unwrap_err();
    assert_eq!(short.kind, ErrorKind::NotFound);
    assert_eq!(
        short.message,
        "provided hex string representation must be exactly 12 bytes, instead got: \"abc\", length 3"
    );
    let empty = document_id("").unwrap_err();
    assert_eq!(empty.kind, ErrorKind::NotFound);
    let long = document_id("507f1f77bcf86cd7994390110").unwrap_err();
    assert_eq!(long.kind, ErrorKind::NotFound);
    let longer = document_id("507f1f77bcf86cd79943901100").unwrap_err();
    assert_eq!(longer.kind, ErrorKind::NotFound);
    let letter = document_id("507f1f77bcf86cd79943901g").unwrap_err();
    assert_eq!(letter.kind, ErrorKind::NotFound);
    assert_eq!(
        letter.message,
        "invalid character 'g' was found at index 23 in the provided hex string: \"507f1f77bcf86cd79943901g\""
    );
    let wide = document_id("507f1f77bcf86cd7994390é").unwrap_err();
    assert_eq!(wide.kind, ErrorKind::NotFound);
}

#[test]
fn create_is_refused_when_the_name_is_taken() {
    let taken: Result<Vec<Environment>, RepositoryError> = Ok(vec![Environment::new("existing_env")]);
    let err = ensure_unique("Environment", "existing_env", &taken).unwrap_err();
    assert_eq!(err.kind, ErrorKind::AlreadyExists);
    assert_eq!(err.message, "Environment with name \"existing_env\" already exists");
    let flag_taken: Result<Vec<u8>, RepositoryError> = Ok(vec![1, 2]);
    let err = ensure_unique("Feature flag", "x", &flag_taken).unwrap_err();
    assert_eq!(err.kind, ErrorKind::AlreadyExists);
    assert_eq!(err.message, "Feature flag with name \"x\" already exists");
}

#[test]
fn create_goes_on_when_the_name_is_free_or_the_search_failed() {
    let free: Result<Vec<Environment>, RepositoryError> = Ok(vec![]);
    assert!(ensure_unique("Environment", "development", &free).is_ok());
    let failed: Result<Vec<Environment>, RepositoryError> =
        Err(RepositoryError::new(ErrorKind::NotFound, "down".to_string()));
    assert!(ensure_unique("Environment", "development", &failed).is_ok());
}

#[test]
fn get_answers_the_document_or_not_found() {
    let found: Result<Option<u32>, String> = Ok(Some(7));
    assert_eq!(get_outcome(found).unwrap(), 7);
    let missing: Result<Option<u32>, String> = Ok(None);
    let err = get_outcome(missing).unwrap_err();
    assert_eq!(err.kind, ErrorKind::NotFound);
    assert_eq!(err.message, "Entity not found");
    let failed: Result<Option<u32>, String> = Err("timeout".to_string());
    let err = get_outcome(failed).unwrap_err();
    assert_eq!(err.kind, ErrorKind::NotFound);
    assert_eq!(err.message, "Error getting entity: timeout");
}

#[test]
fn find_answers_every_match_and_none_is_no_error() {
    let none: Result<Vec<u32>, String> = Ok(vec![]);
    assert_eq!(find_outcome(none).unwrap(), Vec::<u32>::new());
    let some: Result<Vec<u32>, String> = Ok(vec![3, 1, 2]);
    assert_eq!(find_outcome(some).unwrap(), vec![3, 1, 2]);
    let failed: Result<Vec<u32>, String> = Err("down".to_string());
    let err = find_outcome(failed).unwrap_err();
    assert_eq!(err.kind, ErrorKind::NotFound);
    assert_eq!(err.message, "down");
}

#[test]
fn update_needs_a_matched_document() {
    assert!(update_outcome(Ok(1)).is_ok());
    assert!(update_outcome(Ok(2)).is_ok());
    let err = update_outcome(Ok(0)).unwrap_err();
    assert_eq!(err.kind, ErrorKind::NotFound);
    assert_eq!(err.message, "Entity not found");
    let err = update_outcome(Err("down".to_string())).unwrap_err();
    assert_eq!(err.kind, ErrorKind::NotFound);
    assert_eq!(err.message, "down");
}

#[test]
fn second_delete_is_not_found() {
    let first: Result<Option<u32>, String> = Ok(Some(1));
    assert!(delete_outcome(first).is_ok());
    let second: Result<Option<u32>, String> = Ok(None);
    let err = delete_outcome(second).unwrap_err();
    assert_eq!(err.kind, ErrorKind::NotFound);
    assert_eq!(err.message, "Entity not found");
    let failed: Result<Option<u32>, String> = Err("down".to_string());
    let err = delete_outcome(failed).unwrap_err();
    assert_eq!(err.kind, ErrorKind::NotFound);
    assert_eq!(err.message, "down");
}
