use voting_machine::error::Error;
use voting_machine::registry::Registry;

#[test]
fn duplicate_voter_name_is_rejected() {
    let mut registry = Registry::new();
    assert_eq!(registry.register_voter("Alice", "2000-01-01"), Ok(()));
    assert_eq!(
        registry.register_voter("Alice", "1990-05-05"),
        Err(Error::ConstraintViolation)
    );
    let voter = registry.voter_named("Alice").unwrap();
    assert_eq!(voter.id, 1);
    assert_eq!(voter.name, "Alice");
    assert_eq!(voter.date_of_birth, "2000-01-01");
}

#[test]
fn voters_are_numbered_from_one() {
    let mut registry = Registry::new();
    assert_eq!(registry.register_voter("Alice", "2000-01-01"), Ok(()));
    assert_eq!(
        registry.register_voter("Alice", "2000-01-01"),
        Err(Error::ConstraintViolation)
    );
    assert_eq!(registry.register_voter("Bob", "2000-01-01"), Ok(()));
    assert_eq!(registry.voter_named("Alice").unwrap().id, 1);
    assert_eq!(registry.voter_named("Bob").unwrap().id, 2);
    assert!(registry.voter_named("Carol").is_none());
}

#[test]
fn voter_names_differ_by_case() {
    let mut registry = Registry::new();
    assert_eq!(registry.register_voter("alice", "2000-01-01"), Ok(()));
    assert_eq!(registry.register_voter("Alice", "2000-01-01"), Ok(()));
}

#[test]
fn empty_voter_name_is_rejected() {
    let mut registry = Registry::new();
    assert_eq!(
        registry.register_voter("", "2000-01-01"),
        Err(Error::ConstraintViolation)
    );
    assert!(registry.voter_named("").is_none());
}

#[test]
fn duplicate_office_id_is_rejected() {
    let mut registry = Registry::new();
    assert_eq!(registry.register_office("1", "Mayor"), Ok(()));
    assert_eq!(
        registry.register_office("1", "Mayor"),
        Err(Error::ConstraintViolation)
    );
    assert_eq!(
        registry.register_office("1", "Sheriff"),
        Err(Error::ConstraintViolation)
    );
    let office = registry.office_with_id("1").unwrap();
    assert_eq!(office.id, "1");
    assert_eq!(office.name, "Mayor");
}

#[test]
fn offices_with_the_same_name_may_coexist() {
    let mut registry = Registry::new();
    assert_eq!(registry.register_office("1", "Mayor"), Ok(()));
    assert_eq!(registry.register_office("2", "Mayor"), Ok(()));
    assert_eq!(registry.office_with_id("2").unwrap().name, "Mayor");
    assert!(registry.office_with_id("3").is_none());
}

#[test]
fn candidate_is_registered_without_its_office() {
    let mut registry = Registry::new();
    assert_eq!(registry.candidate_count(), 0);
    assert_eq!(registry.register_candidate("Carol", "17", "Green"), Ok(()));
    assert!(registry.office_with_id("17").is_none());
    assert_eq!(registry.candidate_count(), 1);
    let candidate = registry.candidate_at(0).unwrap();
    assert_eq!(candidate.id, 1);
    assert_eq!(candidate.name, "Carol");
    assert_eq!(candidate.office_id, "17");
    assert_eq!(candidate.party, "Green");
    assert!(registry.candidate_at(1).is_none());
}

#[test]
fn candidates_need_not_be_unique() {
    let mut registry = Registry::new();
    assert_eq!(registry.register_candidate("Carol", "1", "Green"), Ok(()));
    assert_eq!(registry.register_candidate("Carol", "1", "Green"), Ok(()));
    assert_eq!(registry.candidate_count(), 2);
    assert_eq!(registry.candidate_at(1).unwrap().id, 2);
}

#[test]
fn tables_of_the_registry_are_independent() {
    let mut registry = Registry::new();
    assert_eq!(registry.register_voter("Mayor", "2000-01-01"), Ok(()));
    assert_eq!(registry.register_office("Mayor", "Mayor"), Ok(()));
    assert_eq!(registry.register_candidate("Mayor", "Mayor", "Mayor"), Ok(()));
}
