//! The password hasher: an adaptive, salted, one-way hash with a verify
//! primitive that fails closed.

use vstd::prelude::*;

use crate::errors::AuthError;

verus! {

/// Whether bcrypt's `verify` accepts `password` against the stored string
/// `hash`: the result depends on the two arguments alone.
pub uninterp spec fn bcrypt_accepts(password: Seq<char>, hash: Seq<char>) -> bool;

/// Relies on bcrypt::hash: the salt is drawn fresh, the hash string is
/// always exactly 60 characters, and bcrypt::verify accepts it for the
/// same password.
#[verifier::external_body]
fn bcrypt_hash(password: &str) -> (r: Option<String>)
    ensures
        r matches Some(h) ==> bcrypt_accepts(password@, h@) && h@.len() == 60,
{
    bcrypt::hash(password.as_bytes(), bcrypt::DEFAULT_COST).ok()
}

/// Relies on bcrypt::verify: deterministic in the password and the stored
/// string; it errors (rather than returning a bool) only on a malformed
/// stored string, which it never accepts.
#[verifier::external_body]
fn bcrypt_check(password: &str, hash: &str) -> (r: Option<bool>)
    ensures
        r matches Some(b) ==> b == bcrypt_accepts(password@, hash@),
        r is None ==> !bcrypt_accepts(password@, hash@),
{
    bcrypt::verify(password.as_bytes(), hash).ok()
}

/// Hashes a plaintext password with a fresh salt at the default work factor.
/// The result, when one comes, is a 60-character stored string that
/// `verify_password` accepts for the same plaintext.
pub fn hash_password(password: &str) -> (r: Result<String, AuthError>)
    ensures
        r matches Ok(h) ==> bcrypt_accepts(password@, h@) && h@.len() == 60,
        r matches Err(e) ==> e == AuthError::PasswordHash,
{
    match bcrypt_hash(password) {
        Some(h) => Ok(h),
        None => Err(AuthError::PasswordHash),
    }
}

/// Checks a plaintext password against a stored hash string. A malformed
/// stored string is rejected rather than reported as an error: verification
/// fails closed.
pub fn verify_password(password: &str, hash: &str) -> (r: bool)
    ensures
        r == bcrypt_accepts(password@, hash@),
{
    match bcrypt_check(password, hash) {
        Some(b) => b,
        None => false,
    }
}

} // verus!
