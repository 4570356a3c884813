use sha2::Digest;
use sha2::Sha256;
use voting_machine::credentials::CredentialStore;
use voting_machine::digest::DIGEST_LEN;
use voting_machine::error::Error;

#[test]
fn registered_official_authenticates_with_own_password_only() {
    let mut store = CredentialStore::new();
    assert_eq!(store.register_official("admin", "secret1"), Ok(()));
    assert_eq!(store.authenticate("admin", "secret1"), Ok(true));
    assert_eq!(store.authenticate("admin", "wrong"), Ok(false));
}

#[test]
fn unknown_username_is_refused_without_error() {
    let mut store = CredentialStore::new();
    assert_eq!(store.authenticate("admin", "secret1"), Ok(false));
    assert_eq!(store.register_official("admin", "secret1"), Ok(()));
    assert_eq!(store.authenticate("root", "secret1"), Ok(false));
    assert_eq!(store.authenticate("", ""), Ok(false));
}

#[test]
fn duplicate_username_is_rejected_and_first_password_stays() {
    let mut store = CredentialStore::new();
    assert_eq!(store.register_official("admin", "secret1"), Ok(()));
    assert_eq!(
        store.register_official("admin", "other"),
        Err(Error::ConstraintViolation)
    );
    assert_eq!(store.len(), 1);
    assert_eq!(store.authenticate("admin", "secret1"), Ok(true));
    assert_eq!(store.authenticate("admin", "other"), Ok(false));
}

#[test]
fn empty_username_is_rejected() {
    let mut store = CredentialStore::new();
    assert_eq!(
        store.register_official("", "secret1"),
        Err(Error::ConstraintViolation)
    );
    assert_eq!(store.len(), 0);
}

#[test]
fn stored_digest_is_sha256_in_lowercase_hex() {
    let mut store = CredentialStore::new();
    assert_eq!(store.register_official("admin", "secret1"), Ok(()));
    let digest = store.stored_digest("admin").unwrap();
    assert_eq!(
        digest,
        "5b11618c2e44027877d0cd0921ed166b9f176f50587fc91e7534dd2946db77d6"
    );
    assert_ne!(digest, "secret1");
    assert_eq!(digest.len(), DIGEST_LEN);
}

#[test]
fn stored_digest_agrees_with_sha2() {
    let mut store = CredentialStore::new();
    assert_eq!(store.register_official("zoë", "pässword"), Ok(()));
    let expected = format!("{:x}", Sha256::digest("pässword".as_bytes()));
    assert_eq!(store.stored_digest("zoë").unwrap(), &expected);
    assert_eq!(
        expected,
        "3478267b5612791b40988906b3a7897eb6ab501e04b95ed32f99d0afdf669d9c"
    );
}

#[test]
fn empty_password_has_a_digest_of_full_length() {
    let mut store = CredentialStore::new();
    assert_eq!(store.register_official("guest", ""), Ok(()));
    assert_eq!(
        store.stored_digest("guest").unwrap(),
        "e3b0c44298fc1c149afbf4c8996fb92427ae41e4649b934ca495991b7852b855"
    );
    assert_eq!(store.authenticate("guest", ""), Ok(true));
    assert_eq!(store.authenticate("guest", " "), Ok(false));
}

#[test]
fn stored_digest_of_unknown_official_is_none() {
    let store = CredentialStore::new();
    assert!(store.stored_digest("admin").is_none());
}

#[test]
fn digest_can_be_registered_and_verified_directly() {
    let mut store = CredentialStore::new();
    let digest = "8810ad581e59f2bc3928b261707a71308f7e139eb04820366dc4d5c18d980225";
    assert_eq!(store.register_with_digest("clerk", digest), Ok(()));
    assert!(store.verify_digest("clerk", digest));
    assert!(!store.verify_digest("clerk", "wrong"));
    assert!(!store.verify_digest("admin", digest));
    assert_eq!(store.authenticate("clerk", "wrong"), Ok(true));
    assert_eq!(store.authenticate("clerk", digest), Ok(false));
    assert_eq!(
        store.register_with_digest("clerk", digest),
        Err(Error::ConstraintViolation)
    );
}

#[test]
fn later_registrations_keep_earlier_logins() {
    let mut store = CredentialStore::new();
    assert_eq!(store.register_official("admin", "secret1"), Ok(()));
    assert_eq!(store.register_official("clerk", "secret2"), Ok(()));
    assert_eq!(store.authenticate("admin", "secret1"), Ok(true));
    assert_eq!(store.authenticate("clerk", "secret2"), Ok(true));
    assert_eq!(store.authenticate("admin", "secret2"), Ok(false));
    assert_eq!(store.authenticate("clerk", "secret1"), Ok(false));
}
