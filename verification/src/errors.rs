//! The single error taxonomy of the authentication and authorization core.

use vstd::prelude::*;

verus! {

/// Every failure that the core's operations can report.
///
/// Store-level lookups, the authentication flows, the token service and the
/// authorization policy all draw from this one enum, so that callers map each
/// variant to a stable outcome.
#[derive(Debug, Clone, PartialEq, Eq)]
pub enum AuthError {
    /// Registration found the email already taken.
    EmailAlreadyExists { email: String },
    /// Login failed: unknown email or wrong password, deliberately
    /// indistinguishable in the response.
    InvalidCredentials,
    /// Login refused: the account is deactivated.
    AccountInactive,
    /// Login refused: the email address was never verified.
    EmailNotVerified,
    /// No user carries the presented verification code.
    InvalidVerificationCode,
    /// The presented verification code exists but its expiry has passed.
    VerificationCodeExpired,
    /// No user with this identifier.
    NotFound { id: u128 },
    /// No user with this email address.
    NotFoundByEmail { email: String },
    /// The password hasher failed.
    PasswordHash,
    /// An identifier collision or other store-level fault.
    Infrastructure,
    /// The token-signing secret is unavailable.
    ConfigurationError,
    /// A token failed signature or structural checks.
    InvalidToken,
    /// A token's expiry lies in the past.
    TokenExpired,
    /// A notification had to be delivered and was not.
    NotificationFailed,
    /// The authorization policy denied the mutation.
    PermissionDenied,
    /// Deactivating one's own account is blocked regardless of role.
    CannotDeactivateSelf,
}

} // verus!
