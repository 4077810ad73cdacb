//! The notifier boundary: what the core asks to be sent, and the settings
//! the transport needs. Rendering and delivery live outside the core.

use vstd::prelude::*;

verus! {

/// A rendered email: subject, HTML body, and an optional plain-text body.
#[derive(Debug, Clone)]
pub struct EmailTemplate {
    pub subject: String,
    pub html_body: String,
    pub text_body: Option<String>,
}

/// The transport and link settings the notifier is constructed with.
#[derive(Debug, Clone)]
pub struct EmailConfig {
    pub smtp_server: String,
    pub smtp_port: u16,
    pub username: String,
    pub password: String,
    pub from_email: String,
    pub from_name: String,
    pub base_url: String,
}

/// Which message a flow asks the notifier to deliver.
#[derive(Debug, Clone)]
pub enum NotificationKind {
    /// A verification email carrying the single-use code.
    Verification { code: String },
    /// The welcome email after successful verification.
    Welcome,
}

/// A delivery request handed to the notifier: destination plus the message
/// kind, from which the transport layer renders the actual email.
#[derive(Debug, Clone)]
pub struct Notification {
    pub to_email: String,
    pub to_name: String,
    pub kind: NotificationKind,
}

} // verus!
