use feature_flags::models::{Environment, FeatureFlag, Operator, Rule};
use feature_flags::repository::memory::{format_id, MemoryRepository};
use feature_flags::repository::ErrorKind;

fn sample_flag(name: &str, label: &str) -> FeatureFlag {
    FeatureFlag::stamped(
        name,
        label,
        false,
        vec![Rule {
            parameter: "tenant".to_string(),
            operator: Operator::Is("tenant1".to_string()),
        }],
        100,
        200,
    )
}

#[test]
fn identifiers_are_24_hex_digits() {
    assert_eq!(format_id(0), "000000000000000000000000");
    assert_eq!(format_id(1), "000000000000000000000001");
    assert_eq!(format_id(255), "0000000000000000000000ff");
    assert_eq!(format_id(0xabcdef), "000000000000000000abcdef");
    assert_eq!(format_id(u64::MAX), "00000000ffffffffffffffff");
}

#[test]
fn created_flag_comes_back_as_it_was_given() {
    let mut repo: MemoryRepository<FeatureFlag> = MemoryRepository::new("Feature flag");
    let entity = sample_flag("sample_flag", "Sample Flag");
    let id = repo.create(&entity).unwrap();
    assert_eq!(id, "000000000000000000000000");
    let item = repo.get(&id).unwrap();
    assert_eq!(item.name, "sample_flag");
    assert_eq!(item.label, "Sample Flag");
    assert_eq!(item.rules, entity.rules);
    assert_eq!(item.enabled, entity.enabled);
    assert_eq!(item.created_at, 100);
    assert_eq!(item.updated_at, 200);
    assert_eq!(item.id, Some(id.clone()));
    assert!(repo.delete(&id).is_ok());
}

#[test]
fn identifier_is_read_in_either_case() {
    let mut repo: MemoryRepository<FeatureFlag> = MemoryRepository::new("Feature flag");
    for i in 0..11 {
        repo.create(&sample_flag(&format!("flag_{}", i), "L")).unwrap();
    }
    let item = repo.get("00000000000000000000000A").unwrap();
    assert_eq!(item.name, "flag_10");
    assert_eq!(item.id, Some("00000000000000000000000a".to_string()));
}

#[test]
fn second_create_with_the_same_name_is_refused() {
    let mut repo: MemoryRepository<Environment> = MemoryRepository::new("Environment");
    let environment = Environment::new("existing_env");
    let inserted_id = repo.create(&environment).unwrap();
    let res = repo.create(&environment);
    assert!(res.is_err());
    let err = res.unwrap_err();
    assert_eq!(err.kind, ErrorKind::AlreadyExists);
    assert_eq!(err.message, "Environment with name \"existing_env\" already exists");
    assert_eq!(repo.find(None).len(), 1);
    let first = repo.get(&inserted_id).unwrap();
    assert_eq!(first.name, "existing_env");
    assert_eq!(first.flags.len(), 0);
    assert!(repo.delete(&inserted_id).is_ok());
    assert!(repo.create(&environment).is_ok());
}

#[test]
fn duplicate_flag_leaves_the_first_as_it_was() {
    let mut repo: MemoryRepository<FeatureFlag> = MemoryRepository::new("Feature flag");
    let id = repo.create(&sample_flag("x", "first")).unwrap();
    let err = repo.create(&sample_flag("x", "second")).unwrap_err();
    assert_eq!(err.kind, ErrorKind::AlreadyExists);
    assert_eq!(err.message, "Feature flag with name \"x\" already exists");
    assert_eq!(repo.get(&id).unwrap().label, "first");
    let other = repo.create(&sample_flag("y", "other")).unwrap();
    assert_ne!(other, id);
    assert_eq!(other, "000000000000000000000001");
}

#[test]
fn get_with_a_malformed_or_unknown_id_is_not_found() {
    let mut repo: MemoryRepository<FeatureFlag> = MemoryRepository::new("Feature flag");
    repo.create(&sample_flag("x", "X")).unwrap();
    let err = repo.get("not-an-id").unwrap_err();
    assert_eq!(err.kind, ErrorKind::NotFound);
    let err = repo.get("000000000000000000000009").unwrap_err();
    assert_eq!(err.kind, ErrorKind::NotFound);
    assert_eq!(err.message, "Entity not found");
}

#[test]
fn update_replaces_the_whole_document_and_nothing_else() {
    let mut repo: MemoryRepository<FeatureFlag> = MemoryRepository::new("Feature flag");
    let first = repo.create(&sample_flag("flag_to_update", "Flag to update")).unwrap();
    let second = repo.create(&sample_flag("bystander", "Bystander")).unwrap();
    let entity_to_update = FeatureFlag::stamped("updated_flag", "Updated flag", true, vec![], 7, 8);
    assert!(repo.update(&first, &entity_to_update).is_ok());
    let updated_item = repo.get(&first).unwrap();
    assert_eq!(updated_item.name, "updated_flag");
    assert_eq!(updated_item.label, "Updated flag");
    assert!(updated_item.enabled);
    assert_eq!(updated_item.rules.len(), 0);
    assert_eq!(updated_item.created_at, 7);
    assert_eq!(updated_item.updated_at, 8);
    assert_eq!(updated_item.id, Some(first.clone()));
    let bystander = repo.get(&second).unwrap();
    assert_eq!(bystander, {
        let mut expected = sample_flag("bystander", "Bystander");
        expected.id = Some(second.clone());
        expected
    });
    assert_eq!(repo.find(None).len(), 2);
}

#[test]
fn update_with_a_malformed_or_unknown_id_changes_nothing() {
    let mut repo: MemoryRepository<FeatureFlag> = MemoryRepository::new("Feature flag");
    let id = repo.create(&sample_flag("x", "X")).unwrap();
    let err = repo.update("12", &sample_flag("y", "Y")).unwrap_err();
    assert_eq!(err.kind, ErrorKind::NotFound);
    let err = repo.update("00000000000000000000000f", &sample_flag("y", "Y")).unwrap_err();
    assert_eq!(err.kind, ErrorKind::NotFound);
    assert_eq!(repo.get(&id).unwrap().name, "x");
    assert_eq!(repo.find(None).len(), 1);
}

#[test]
fn delete_removes_once_and_is_not_found_the_second_time() {
    let mut repo: MemoryRepository<FeatureFlag> = MemoryRepository::new("Feature flag");
    let keep = repo.create(&sample_flag("keep", "Keep")).unwrap();
    let inserted_id = repo.create(&sample_flag("flag_to_delete", "Flag to Delete")).unwrap();
    assert!(repo.delete(&inserted_id).is_ok());
    assert_eq!(repo.get(&inserted_id).unwrap_err().kind, ErrorKind::NotFound);
    let again = repo.delete(&inserted_id).unwrap_err();
    assert_eq!(again.kind, ErrorKind::NotFound);
    assert_eq!(repo.delete("zz").unwrap_err().kind, ErrorKind::NotFound);
    assert_eq!(repo.get(&keep).unwrap().name, "keep");
    let next = repo.create(&sample_flag("later", "Later")).unwrap();
    assert_eq!(next, "000000000000000000000002");
}

#[test]
fn find_answers_all_or_those_of_a_name() {
    let mut repo: MemoryRepository<FeatureFlag> = MemoryRepository::new("Feature flag");
    assert_eq!(repo.find(None).len(), 0);
    assert_eq!(repo.find(Some("a")).len(), 0);
    repo.create(&sample_flag("a", "A")).unwrap();
    repo.create(&sample_flag("b", "B")).unwrap();
    repo.create(&sample_flag("c", "C")).unwrap();
    let all = repo.find(None);
    assert_eq!(all.len(), 3);
    assert_eq!(all[0].name, "a");
    assert_eq!(all[1].name, "b");
    assert_eq!(all[2].name, "c");
    let named = repo.find(Some("b"));
    assert_eq!(named.len(), 1);
    assert_eq!(named[0].label, "B");
    assert_eq!(named[0].id, Some("000000000000000000000001".to_string()));
    assert_eq!(repo.find(Some("z")).len(), 0);
}

#[test]
fn environment_with_flags_is_kept_whole() {
    let mut repo: MemoryRepository<Environment> = MemoryRepository::new("Environment");
    let mut environment = Environment::new("development");
    environment.add_flag(&sample_flag("sample_flag", "Sample Flag"));
    let id = repo.create(&environment).unwrap();
    let stored = repo.get(&id).unwrap();
    assert_eq!(stored.name, "development");
    assert_eq!(stored.flags.len(), 1);
    assert_eq!(stored.flags[0], sample_flag("sample_flag", "Sample Flag"));
    environment.set_flags(vec![]);
    assert!(repo.update(&id, &environment).is_ok());
    assert_eq!(repo.get(&id).unwrap().flags.len(), 0);
    assert!(repo.delete(&id).is_ok());
}
