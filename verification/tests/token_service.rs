//! The token service: issue, validation, expiry, and tamper-evidence.

use portal_core::errors::AuthError;
use portal_core::token::generate_token;
use portal_core::token::validate_token;
use portal_core::token::validate_token_at;
use portal_core::token::Claims;
use portal_core::user::User;
use portal_core::user::UserRole;

const SECRET: &str = "another-signing-secret";

fn sample_user() -> User {
    User {
        id: 77,
        fullname: "Grace Hopper".to_string(),
        email: "grace@navy.mil".to_string(),
        password_hash: "irrelevant".to_string(),
        user_role: UserRole::Treasurer,
        email_verification_code: None,
        email_verification_expires_at: None,
        is_email_verified: true,
        is_active: true,
        created_at: 0,
        updated_at: 0,
    }
}

#[test]
fn token_round_trips_within_its_validity_window() {
    let token = generate_token(&sample_user(), SECRET).unwrap();
    let claims = validate_token_at(&token, SECRET, 0).unwrap();
    assert_eq!(claims.sub, 77);
    assert_eq!(claims.email, "grace@navy.mil");
    assert_eq!(claims.user_role, UserRole::Treasurer);
    assert_eq!(claims.exp, claims.iat + 86_400);
    let still_valid = validate_token_at(&token, SECRET, claims.exp);
    assert!(still_valid.is_ok());
    assert!(validate_token(&token, SECRET).is_ok());
}

#[test]
fn token_past_its_expiry_is_rejected_as_expired() {
    let token = generate_token(&sample_user(), SECRET).unwrap();
    let claims = validate_token_at(&token, SECRET, 0).unwrap();
    let expired = validate_token_at(&token, SECRET, claims.exp + 1);
    assert_eq!(expired.unwrap_err(), AuthError::TokenExpired);
}

#[test]
fn mutating_one_character_invalidates_the_token() {
    let token = generate_token(&sample_user(), SECRET).unwrap();
    let chars: Vec<char> = token.chars().collect();
    for position in [0usize, 25, 60, 90, chars.len() - 1] {
        let mut tampered = chars.clone();
        tampered[position] = if tampered[position] == 'x' { 'y' } else { 'x' };
        let mutated: String = tampered.into_iter().collect();
        assert_ne!(mutated, token);
        let r = validate_token_at(&mutated, SECRET, 0);
        assert_eq!(r.unwrap_err(), AuthError::InvalidToken, "position {}", position);
    }
}

#[test]
fn token_is_bound_to_the_secret_it_was_signed_with() {
    let token = generate_token(&sample_user(), SECRET).unwrap();
    let r = validate_token_at(&token, "a-different-secret", 0);
    assert_eq!(r.unwrap_err(), AuthError::InvalidToken);
}

#[test]
fn malformed_tokens_are_rejected() {
    for garbage in ["", "abc", "not.a.token.at.all", &"9".repeat(97)] {
        let r = validate_token_at(garbage, SECRET, 0);
        assert_eq!(r.unwrap_err(), AuthError::InvalidToken);
    }
    let no_digits = "x".repeat(120);
    assert_eq!(
        validate_token_at(&no_digits, SECRET, 0).unwrap_err(),
        AuthError::InvalidToken
    );
}

#[test]
fn empty_secret_refuses_token_issue() {
    let r = generate_token(&sample_user(), "");
    assert_eq!(r.unwrap_err(), AuthError::ConfigurationError);
}

#[test]
fn claims_carry_identity_and_a_day_long_window() {
    let claims = Claims::new(5, "c@x.com".to_string(), UserRole::Admin);
    assert_eq!(claims.sub, 5);
    assert_eq!(claims.email, "c@x.com");
    assert_eq!(claims.user_role, UserRole::Admin);
    assert!(claims.iat >= 0);
    assert_eq!(claims.exp, claims.iat.saturating_add(86_400));
}
