use voting_machine::database::Database;
use voting_machine::error::classify_failure;
use voting_machine::error::Error;
use voting_machine::error::Table;
use voting_machine::ledger::VoterState;

#[test]
fn operations_fail_before_tables_exist() {
    let mut db = Database::new();
    assert!(!db.is_created());
    assert_eq!(db.register_voter("Alice", "2000-01-01"), Err(Error::StorageError));
    assert_eq!(db.register_official("admin", "secret1"), Err(Error::StorageError));
    assert_eq!(db.register_office("1", "Mayor"), Err(Error::StorageError));
    assert_eq!(db.register_candidate("Carol", "1", "Green"), Err(Error::StorageError));
    assert_eq!(db.cast_ballot(1, "A", "B", "C"), Err(Error::StorageError));
    assert_eq!(db.authenticate("admin", "secret1"), Err(Error::StorageError));
    assert_eq!(db.ledger().len(), 0);
    assert_eq!(db.credentials().len(), 0);
    assert_eq!(db.registry().candidate_count(), 0);
}

#[test]
fn creating_tables_twice_keeps_the_data() {
    let mut db = Database::new();
    assert_eq!(db.create_tables(), Ok(()));
    assert!(db.is_created());
    assert_eq!(db.register_voter("Alice", "2000-01-01"), Ok(()));
    assert_eq!(db.register_official("admin", "secret1"), Ok(()));
    assert_eq!(db.register_office("1", "Mayor"), Ok(()));
    assert_eq!(db.register_candidate("Carol", "1", "Green"), Ok(()));
    assert_eq!(db.cast_ballot(1, "A", "B", "C"), Ok(()));

    assert_eq!(db.create_tables(), Ok(()));
    assert_eq!(db.create_tables(), Ok(()));
    assert!(db.is_created());

    assert_eq!(db.registry().voter_named("Alice").unwrap().date_of_birth, "2000-01-01");
    assert_eq!(db.registry().office_with_id("1").unwrap().name, "Mayor");
    assert_eq!(db.registry().candidate_at(0).unwrap().name, "Carol");
    assert_eq!(db.authenticate("admin", "secret1"), Ok(true));
    assert_eq!(db.ledger().ballot_of(1).unwrap().office_1_selection, "A");
    assert_eq!(db.ledger().len(), 1);
    assert_eq!(db.register_voter("Alice", "2000-01-01"), Err(Error::ConstraintViolation));
}

#[test]
fn official_scenario_through_the_database() {
    let mut db = Database::new();
    assert_eq!(db.create_tables(), Ok(()));
    assert_eq!(db.register_official("admin", "secret1"), Ok(()));
    assert_eq!(db.authenticate("admin", "secret1"), Ok(true));
    assert_eq!(db.authenticate("admin", "wrong"), Ok(false));
    assert_eq!(db.authenticate("nobody", "secret1"), Ok(false));
    assert_eq!(
        db.credentials().stored_digest("admin").unwrap(),
        "5b11618c2e44027877d0cd0921ed166b9f176f50587fc91e7534dd2946db77d6"
    );
}

#[test]
fn ballot_scenario_through_the_database() {
    let mut db = Database::new();
    assert_eq!(db.create_tables(), Ok(()));
    assert_eq!(db.register_voter("Alice", "2000-01-01"), Ok(()));
    assert_eq!(db.registry().voter_named("Alice").unwrap().id, 1);
    assert_eq!(db.cast_ballot(1, "A", "B", "C"), Ok(()));
    assert_eq!(db.cast_ballot(1, "X", "Y", "Z"), Err(Error::DuplicateBallot));
    let ballot = db.ledger().ballot_of(1).unwrap();
    assert_eq!(ballot.office_1_selection, "A");
    assert_eq!(ballot.office_2_selection, "B");
    assert_eq!(ballot.office_3_selection, "C");
    assert_eq!(db.ledger().state_of(1), VoterState::HasVoted);
    assert_eq!(db.ledger().state_of(2), VoterState::HasNotVoted);
}

#[test]
fn office_scenario_through_the_database() {
    let mut db = Database::new();
    assert_eq!(db.create_tables(), Ok(()));
    assert_eq!(db.register_office("1", "Mayor"), Ok(()));
    assert_eq!(db.register_office("1", "Mayor"), Err(Error::ConstraintViolation));
}

#[test]
fn store_failures_are_classified_by_table() {
    assert_eq!(classify_failure(Table::Ballot, true), Error::DuplicateBallot);
    assert_eq!(classify_failure(Table::Voter, true), Error::ConstraintViolation);
    assert_eq!(classify_failure(Table::Official, true), Error::ConstraintViolation);
    assert_eq!(classify_failure(Table::Office, true), Error::ConstraintViolation);
    assert_eq!(classify_failure(Table::Candidate, true), Error::ConstraintViolation);
    assert_eq!(classify_failure(Table::Ballot, false), Error::StorageError);
    assert_eq!(classify_failure(Table::Voter, false), Error::StorageError);
}

#[test]
fn every_error_has_its_own_message() {
    let a = Error::ConstraintViolation.message();
    let b = Error::DuplicateBallot.message();
    let c = Error::StorageError.message();
    assert_eq!(a, "uniqueness constraint violated");
    assert_eq!(b, "a ballot is already recorded for this voter");
    assert_eq!(c, "the store could not complete the operation");
    let d = Error::ReferenceNotFound.message();
    assert_eq!(d, "the request refers to a row that does not exist");
}

#[test]
fn restored_official_authenticates_with_the_registered_password() {
    let mut db = Database::new();
    let digest = "5b11618c2e44027877d0cd0921ed166b9f176f50587fc91e7534dd2946db77d6";
    assert_eq!(db.restore_official("admin", digest), Err(Error::StorageError));
    assert_eq!(db.create_tables(), Ok(()));
    assert_eq!(db.restore_official("admin", digest), Ok(()));
    assert_eq!(db.restore_official("admin", digest), Err(Error::ConstraintViolation));
    assert_eq!(db.authenticate("admin", "secret1"), Ok(true));
    assert_eq!(db.authenticate("admin", digest), Ok(false));
}

#[test]
fn strict_candidate_registration_needs_the_office() {
    let mut db = Database::new();
    assert_eq!(
        db.register_candidate_strict("Carol", "1", "Green"),
        Err(Error::StorageError)
    );
    assert_eq!(db.create_tables(), Ok(()));
    assert_eq!(
        db.register_candidate_strict("Carol", "1", "Green"),
        Err(Error::ReferenceNotFound)
    );
    assert_eq!(db.registry().candidate_count(), 0);
    assert_eq!(db.register_office("1", "Mayor"), Ok(()));
    assert_eq!(db.register_candidate_strict("Carol", "1", "Green"), Ok(()));
    assert_eq!(
        db.register_candidate_strict("Dave", "2", "Blue"),
        Err(Error::ReferenceNotFound)
    );
    assert_eq!(db.registry().candidate_count(), 1);
    assert_eq!(db.register_candidate("Dave", "2", "Blue"), Ok(()));
}

#[test]
fn strict_cast_needs_the_voter() {
    let mut db = Database::new();
    assert_eq!(db.cast_ballot_strict(1, "A", "B", "C"), Err(Error::StorageError));
    assert_eq!(db.create_tables(), Ok(()));
    assert_eq!(db.cast_ballot_strict(1, "A", "B", "C"), Err(Error::ReferenceNotFound));
    assert_eq!(db.cast_ballot_strict(0, "A", "B", "C"), Err(Error::ReferenceNotFound));
    assert_eq!(db.ledger().len(), 0);
    assert_eq!(db.register_voter("Alice", "2000-01-01"), Ok(()));
    assert!(db.registry().has_voter_id(1));
    assert!(!db.registry().has_voter_id(0));
    assert!(!db.registry().has_voter_id(2));
    assert_eq!(db.cast_ballot_strict(2, "A", "B", "C"), Err(Error::ReferenceNotFound));
    assert_eq!(db.cast_ballot_strict(1, "A", "B", "C"), Ok(()));
    assert_eq!(db.cast_ballot_strict(1, "X", "Y", "Z"), Err(Error::DuplicateBallot));
    assert_eq!(db.ledger().ballot_of(1).unwrap().office_1_selection, "A");
}
