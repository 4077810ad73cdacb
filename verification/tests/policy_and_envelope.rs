//! The authorization policy, role parsing, the response envelope, and the
//! notifier boundary types.

use portal_core::email::EmailConfig;
use portal_core::email::EmailTemplate;
use portal_core::policy::can_deactivate;
use portal_core::policy::can_mutate;
use portal_core::response::ApiResponse;
use portal_core::user::UserRole;

#[test]
fn owners_and_admins_may_mutate_others_may_not() {
    let owner = 10u128;
    let other = 20u128;
    assert!(can_mutate(owner, UserRole::Member, owner));
    assert!(!can_mutate(other, UserRole::Member, owner));
    assert!(can_mutate(other, UserRole::Admin, owner));
    assert!(can_mutate(other, UserRole::SuperAdmin, owner));
    assert!(!can_mutate(other, UserRole::Treasurer, owner));
    assert!(can_mutate(owner, UserRole::Treasurer, owner));
}

#[test]
fn only_admins_may_deactivate_and_never_themselves() {
    let admin = 1u128;
    let target = 2u128;
    assert!(can_deactivate(admin, UserRole::Admin, target));
    assert!(can_deactivate(admin, UserRole::SuperAdmin, target));
    assert!(!can_deactivate(admin, UserRole::Member, target));
    assert!(!can_deactivate(admin, UserRole::Treasurer, target));
    assert!(!can_deactivate(admin, UserRole::Admin, admin));
    assert!(!can_deactivate(admin, UserRole::SuperAdmin, admin));
}

#[test]
fn role_names_parse_and_unknown_names_are_refused() {
    assert_eq!(UserRole::from_str("super_admin"), Ok(UserRole::SuperAdmin));
    assert_eq!(UserRole::from_str("admin"), Ok(UserRole::Admin));
    assert_eq!(UserRole::from_str("member"), Ok(UserRole::Member));
    assert_eq!(UserRole::from_str("treasurer"), Ok(UserRole::Treasurer));
    assert_eq!(UserRole::from_str("Admin"), Err(()));
    assert_eq!(UserRole::from_str(""), Err(()));
}

#[test]
fn response_envelopes_carry_exactly_one_of_data_and_error() {
    let ok = ApiResponse::success(41u32);
    assert!(ok.success);
    assert_eq!(ok.data, Some(41));
    assert!(ok.message.is_none());
    assert!(ok.error.is_none());

    let with_message = ApiResponse::success_with_message(7u32, "created".to_string());
    assert!(with_message.success);
    assert_eq!(with_message.data, Some(7));
    assert_eq!(with_message.message.as_deref(), Some("created"));
    assert!(with_message.error.is_none());

    let failed = ApiResponse::<u32>::error("boom".to_string());
    assert!(!failed.success);
    assert!(failed.data.is_none());
    assert!(failed.message.is_none());
    assert_eq!(failed.error.as_deref(), Some("boom"));
}

#[test]
fn notifier_boundary_types_hold_plain_values() {
    let template = EmailTemplate {
        subject: "Verify your email".to_string(),
        html_body: "<p>code</p>".to_string(),
        text_body: Some("code".to_string()),
    };
    assert!(template.text_body.is_some());

    let config = EmailConfig {
        smtp_server: "smtp.example.com".to_string(),
        smtp_port: 587,
        username: "mailer".to_string(),
        password: "mailer-password".to_string(),
        from_email: "portal@example.com".to_string(),
        from_name: "Portal".to_string(),
        base_url: "https://portal.example.com".to_string(),
    };
    assert_eq!(config.smtp_port, 587);
    assert!(config.base_url.starts_with("https://"));
}
