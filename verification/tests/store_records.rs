//! The deterministic insertion core: uniqueness of emails and identifiers.

use portal_core::errors::AuthError;
use portal_core::store::CredentialStore;
use portal_core::user::User;
use portal_core::user::UserRole;

fn record(id: u128, email: &str) -> User {
    User {
        id,
        fullname: "Someone".to_string(),
        email: email.to_string(),
        password_hash: "$2b$12$abcdefghijklmnopqrstuv".to_string(),
        user_role: UserRole::Member,
        email_verification_code: Some("AAAAAAAAAAAAAAAAAAAAAAAAAAAAAAAA".to_string()),
        email_verification_expires_at: Some(86_400),
        is_email_verified: false,
        is_active: true,
        created_at: 0,
        updated_at: 0,
    }
}

#[test]
fn insertion_is_refused_exactly_on_duplicates() {
    let mut store = CredentialStore::new();
    assert!(store.insert_record(record(1, "one@x.com")).is_ok());

    let taken_email = store.insert_record(record(2, "one@x.com"));
    match taken_email {
        Err(AuthError::EmailAlreadyExists { email }) => assert_eq!(email, "one@x.com"),
        other => panic!("expected an email conflict, got {:?}", other),
    }

    let taken_id = store.insert_record(record(1, "two@x.com"));
    assert_eq!(taken_id.unwrap_err(), AuthError::Infrastructure);

    assert!(store.insert_record(record(2, "two@x.com")).is_ok());
    assert_eq!(store.len(), 2);
}

#[test]
fn lookups_find_exactly_the_inserted_records() {
    let mut store = CredentialStore::new();
    store.insert_record(record(5, "five@x.com")).unwrap();
    store.insert_record(record(6, "six@x.com")).unwrap();

    assert_eq!(store.find_by_email("five@x.com").unwrap().id, 5);
    assert!(store.find_by_email("seven@x.com").is_none());
    assert_eq!(store.find_by_id(6).unwrap().email, "six@x.com");
    assert!(store.find_by_id(7).is_none());

    let by_code = store
        .find_by_verification_code("AAAAAAAAAAAAAAAAAAAAAAAAAAAAAAAA")
        .unwrap();
    assert_eq!(by_code.id, 5, "the first holder of the code is returned");
    assert!(store.find_by_verification_code("BBBBBBBBBBBBBBBBBBBBBBBBBBBBBBBB").is_none());
}
