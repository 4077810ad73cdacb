//! End-to-end exercises of the registration, login, verification, resend
//! and activation flows against the in-memory credential store.

use portal_core::auth::login;
use portal_core::auth::register;
use portal_core::auth::resend_delivery_result;
use portal_core::auth::resend_verification;
use portal_core::auth::toggle_user_active;
use portal_core::auth::verify_email;
use portal_core::auth::LoginRequest;
use portal_core::auth::RegisterRequest;
use portal_core::email::NotificationKind;
use portal_core::errors::AuthError;
use portal_core::store::CredentialStore;
use portal_core::token::validate_token_at;
use portal_core::user::UserRole;

const SECRET: &str = "server-held-signing-secret";

fn request(fullname: &str, email: &str, password: &str, active: bool) -> RegisterRequest {
    RegisterRequest {
        fullname: fullname.to_string(),
        email: email.to_string(),
        password: password.to_string(),
        user_role: None,
        is_active: Some(active),
    }
}

fn verification_code(kind: &NotificationKind) -> String {
    match kind {
        NotificationKind::Verification { code } => code.clone(),
        NotificationKind::Welcome => panic!("expected a verification notification"),
    }
}

#[test]
fn register_returns_token_and_verification_notification() {
    let mut store = CredentialStore::new();
    let (response, notification) =
        register(&mut store, &request("Ada Lovelace", "ada@x.com", "pw-one", true), SECRET)
            .unwrap();
    assert_eq!(notification.to_email, "ada@x.com");
    assert_eq!(notification.to_name, "Ada Lovelace");
    let code = verification_code(&notification.kind);
    assert_eq!(code.len(), 32);
    assert!(code.chars().all(|c| c.is_ascii_alphanumeric()));
    assert_eq!(response.user.email, "ada@x.com");
    assert_eq!(response.user.fullname, "Ada Lovelace");
    let claims = validate_token_at(&response.token, SECRET, 0).unwrap();
    assert_eq!(claims.sub, response.user.id);
    assert_eq!(claims.email, "ada@x.com");
    assert_eq!(claims.user_role, UserRole::Member);
    let stored = store.find_by_email("ada@x.com").unwrap();
    assert!(!stored.is_email_verified);
    assert_eq!(stored.email_verification_code.as_deref(), Some(code.as_str()));
}

#[test]
fn register_twice_with_same_email_conflicts() {
    let mut store = CredentialStore::new();
    register(&mut store, &request("First", "dup@x.com", "pw-one", true), SECRET).unwrap();
    let second = register(&mut store, &request("Second", "dup@x.com", "pw-two", false), SECRET);
    match second {
        Err(AuthError::EmailAlreadyExists { email }) => assert_eq!(email, "dup@x.com"),
        other => panic!("expected a conflict, got {:?}", other),
    }
    assert_eq!(store.len(), 1);
}

#[test]
fn register_with_requested_role_and_unknown_role() {
    let mut store = CredentialStore::new();
    let mut req = request("Admin", "admin@x.com", "pw", true);
    req.user_role = Some("admin".to_string());
    register(&mut store, &req, SECRET).unwrap();
    assert_eq!(store.find_by_email("admin@x.com").unwrap().user_role, UserRole::Admin);

    let mut req2 = request("Odd", "odd@x.com", "pw", true);
    req2.user_role = Some("overlord".to_string());
    register(&mut store, &req2, SECRET).unwrap();
    assert_eq!(store.find_by_email("odd@x.com").unwrap().user_role, UserRole::Member);
}

#[test]
fn register_with_empty_secret_is_a_configuration_error() {
    let mut store = CredentialStore::new();
    let r = register(&mut store, &request("A", "a@x.com", "pw", true), "");
    assert_eq!(r.unwrap_err(), AuthError::ConfigurationError);
    assert_eq!(store.len(), 0);
}

#[test]
fn verification_code_is_accepted_exactly_once() {
    let mut store = CredentialStore::new();
    let (_, notification) =
        register(&mut store, &request("Once", "once@x.com", "pw", true), SECRET).unwrap();
    let code = verification_code(&notification.kind);
    let welcome = verify_email(&mut store, &code).unwrap();
    assert_eq!(welcome.to_email, "once@x.com");
    assert!(matches!(welcome.kind, NotificationKind::Welcome));
    let stored = store.find_by_email("once@x.com").unwrap();
    assert!(stored.is_email_verified);
    assert!(stored.email_verification_code.is_none());
    assert!(stored.email_verification_expires_at.is_none());

    let again = verify_email(&mut store, &code);
    assert_eq!(again.unwrap_err(), AuthError::InvalidVerificationCode);
}

#[test]
fn unknown_verification_code_is_refused() {
    let mut store = CredentialStore::new();
    register(&mut store, &request("Some", "some@x.com", "pw", true), SECRET).unwrap();
    let r = verify_email(&mut store, "AAAAAAAAAAAAAAAAAAAAAAAAAAAAAAAA");
    assert_eq!(r.unwrap_err(), AuthError::InvalidVerificationCode);
}

#[test]
fn expired_code_is_rejected_but_left_in_place() {
    let mut store = CredentialStore::new();
    let created = store
        .create(
            portal_core::user::CreateUser {
                fullname: "Late".to_string(),
                email: "late@x.com".to_string(),
                password_hash: "pw".to_string(),
                user_role: UserRole::Member,
                is_active: true,
            },
            1_000,
        )
        .unwrap();
    let code = created.email_verification_code.clone().unwrap();
    assert_eq!(created.email_verification_expires_at, Some(87_400));

    let r = store.verify_email(&code, 87_401);
    assert_eq!(r.unwrap_err(), AuthError::VerificationCodeExpired);
    let stored = store.find_by_email("late@x.com").unwrap();
    assert!(!stored.is_email_verified);
    assert_eq!(stored.email_verification_code, Some(code.clone()));

    let r2 = store.verify_email(&code, 200_000);
    assert_eq!(r2.unwrap_err(), AuthError::VerificationCodeExpired);

    let r3 = store.verify_email(&code, 87_400);
    assert!(r3.is_ok());
}

#[test]
fn login_rejections_cover_all_account_states() {
    let mut store = CredentialStore::new();
    let (_, active_notif) =
        register(&mut store, &request("Active", "active@x.com", "right-pw", true), SECRET)
            .unwrap();
    let (_, inactive_notif) =
        register(&mut store, &request("Idle", "idle@x.com", "idle-pw", false), SECRET).unwrap();
    register(&mut store, &request("Fresh", "fresh@x.com", "fresh-pw", true), SECRET).unwrap();
    verify_email(&mut store, &verification_code(&active_notif.kind)).unwrap();
    verify_email(&mut store, &verification_code(&inactive_notif.kind)).unwrap();

    let attempt = |email: &str, password: &str| {
        login(
            &store,
            &LoginRequest { email: email.to_string(), password: password.to_string() },
            SECRET,
        )
    };
    let unknown = attempt("nobody@x.com", "whatever").unwrap_err();
    let wrong = attempt("active@x.com", "wrong-pw").unwrap_err();
    assert_eq!(unknown, AuthError::InvalidCredentials);
    assert_eq!(wrong, AuthError::InvalidCredentials);
    assert_eq!(unknown, wrong);

    assert_eq!(attempt("idle@x.com", "idle-pw").unwrap_err(), AuthError::AccountInactive);
    assert_eq!(attempt("fresh@x.com", "fresh-pw").unwrap_err(), AuthError::EmailNotVerified);
    assert!(attempt("active@x.com", "right-pw").is_ok());
}

#[test]
fn registration_then_verification_then_login() {
    let mut store = CredentialStore::new();
    let (first_response, notification) =
        register(&mut store, &request("User A", "a@x.com", "secret1", true), SECRET).unwrap();
    assert!(!first_response.token.is_empty());

    let before = login(
        &store,
        &LoginRequest { email: "a@x.com".to_string(), password: "secret1".to_string() },
        SECRET,
    );
    assert_eq!(before.unwrap_err(), AuthError::EmailNotVerified);

    let code = verification_code(&notification.kind);
    verify_email(&mut store, &code).unwrap();

    let after = login(
        &store,
        &LoginRequest { email: "a@x.com".to_string(), password: "secret1".to_string() },
        SECRET,
    )
    .unwrap();
    let claims = validate_token_at(&after.token, SECRET, 0).unwrap();
    assert_eq!(claims.user_role, UserRole::Member);
    assert_eq!(claims.email, "a@x.com");
}

#[test]
fn resend_replaces_the_code_and_is_idempotent_once_verified() {
    let mut store = CredentialStore::new();
    let (_, notification) =
        register(&mut store, &request("Re", "re@x.com", "pw", true), SECRET).unwrap();
    let old_code = verification_code(&notification.kind);

    let resent = resend_verification(&mut store, "re@x.com").unwrap().unwrap();
    let new_code = verification_code(&resent.kind);
    assert_ne!(old_code, new_code);
    assert_eq!(
        verify_email(&mut store, &old_code).unwrap_err(),
        AuthError::InvalidVerificationCode
    );
    verify_email(&mut store, &new_code).unwrap();

    let idempotent = resend_verification(&mut store, "re@x.com").unwrap();
    assert!(idempotent.is_none());
}

#[test]
fn resend_for_unknown_email_is_refused() {
    let mut store = CredentialStore::new();
    match resend_verification(&mut store, "ghost@x.com") {
        Err(AuthError::NotFoundByEmail { email }) => assert_eq!(email, "ghost@x.com"),
        other => panic!("expected not-found, got {:?}", other),
    }
}

#[test]
fn resend_delivery_failure_is_fatal_for_the_resend_flow() {
    assert!(resend_delivery_result(true).is_ok());
    assert_eq!(resend_delivery_result(false).unwrap_err(), AuthError::NotificationFailed);
}

#[test]
fn activation_toggle_enforces_the_policy() {
    let mut store = CredentialStore::new();
    let (admin_response, _) = {
        let mut req = request("Boss", "boss@x.com", "pw", true);
        req.user_role = Some("admin".to_string());
        register(&mut store, &req, SECRET).unwrap()
    };
    let (member_response, _) =
        register(&mut store, &request("Plain", "plain@x.com", "pw", true), SECRET).unwrap();
    let admin_id = admin_response.user.id;
    let member_id = member_response.user.id;

    let denied = toggle_user_active(&mut store, member_id, UserRole::Member, admin_id);
    assert_eq!(denied.unwrap_err(), AuthError::PermissionDenied);

    let own = toggle_user_active(&mut store, admin_id, UserRole::Admin, admin_id);
    assert_eq!(own.unwrap_err(), AuthError::CannotDeactivateSelf);

    let missing = toggle_user_active(&mut store, admin_id, UserRole::Admin, 123456789);
    match missing {
        Err(AuthError::NotFound { id }) => assert_eq!(id, 123456789),
        other => panic!("expected not-found, got {:?}", other),
    }

    let toggled = toggle_user_active(&mut store, admin_id, UserRole::Admin, member_id).unwrap();
    assert!(!toggled.is_active);
    let back = toggle_user_active(&mut store, admin_id, UserRole::SuperAdmin, member_id).unwrap();
    assert!(back.is_active);
}

#[test]
fn find_all_returns_every_record_newest_first() {
    let mut store = CredentialStore::new();
    store
        .create(
            portal_core::user::CreateUser {
                fullname: "Old".to_string(),
                email: "old@x.com".to_string(),
                password_hash: "pw".to_string(),
                user_role: UserRole::Member,
                is_active: true,
            },
            100,
        )
        .unwrap();
    store
        .create(
            portal_core::user::CreateUser {
                fullname: "New".to_string(),
                email: "new@x.com".to_string(),
                password_hash: "pw".to_string(),
                user_role: UserRole::Member,
                is_active: true,
            },
            300,
        )
        .unwrap();
    store
        .create(
            portal_core::user::CreateUser {
                fullname: "Mid".to_string(),
                email: "mid@x.com".to_string(),
                password_hash: "pw".to_string(),
                user_role: UserRole::Member,
                is_active: true,
            },
            200,
        )
        .unwrap();
    let all = store.find_all();
    assert_eq!(all.len(), 3);
    assert_eq!(all[0].email, "new@x.com");
    assert_eq!(all[1].email, "mid@x.com");
    assert_eq!(all[2].email, "old@x.com");
    let by_id = store.find_by_id(all[1].id).unwrap();
    assert_eq!(by_id.email, "mid@x.com");
}
