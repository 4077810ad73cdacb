//! The password hasher: round trips, rejections, and fail-closed behavior.

use portal_core::hashing::hash_password;
use portal_core::hashing::verify_password;
use portal_core::user::User;
use portal_core::user::UserRole;

#[test]
fn hashed_passwords_verify_and_wrong_ones_do_not() {
    for password in ["secret1", "", "correct horse battery staple", "pa55w0rd!"] {
        let hash = hash_password(password).unwrap();
        assert!(verify_password(password, &hash), "own password must verify");
        assert!(!verify_password("something-else", &hash));
    }
}

#[test]
fn hashes_are_salted_and_never_the_plaintext() {
    let first = hash_password("secret1").unwrap();
    let second = hash_password("secret1").unwrap();
    assert_ne!(first, "secret1");
    assert_ne!(first, second, "two hashes of one password draw different salts");
    assert!(verify_password("secret1", &first));
    assert!(verify_password("secret1", &second));
}

#[test]
fn malformed_stored_hashes_fail_closed() {
    assert!(!verify_password("anything", ""));
    assert!(!verify_password("anything", "not-a-real-hash"));
    assert!(!verify_password("anything", "$2b$99$definitely-broken"));
}

#[test]
fn user_verify_password_checks_the_stored_hash() {
    let hash = hash_password("member-pw").unwrap();
    let user = User {
        id: 1,
        fullname: "M".to_string(),
        email: "m@x.com".to_string(),
        password_hash: hash,
        user_role: UserRole::Member,
        email_verification_code: None,
        email_verification_expires_at: None,
        is_email_verified: true,
        is_active: true,
        created_at: 0,
        updated_at: 0,
    };
    assert!(user.verify_password("member-pw"));
    assert!(!user.verify_password("not-member-pw"));
}
