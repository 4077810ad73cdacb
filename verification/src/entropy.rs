//! The randomness boundary: verification codes and fresh identifiers.

use vstd::prelude::*;

verus! {

/// The length of every generated verification code.
pub const VERIFICATION_CODE_LEN: usize = 32;

/// Whether `c` is one of the characters a verification code is drawn from.
pub open spec fn is_code_char(c: char) -> bool {
    ||| 48 <= c as int && c as int <= 57
    ||| 65 <= c as int && c as int <= 90
    ||| 97 <= c as int && c as int <= 122
}

/// Relies on rand's `Alphanumeric` distribution with `SampleString` over
/// the thread-local cryptographic generator: exactly 32 characters, each
/// drawn from a-z, A-Z and 0-9; the value is random, so nothing more is
/// assumed of it.
#[verifier::external_body]
pub(crate) fn generate_verification_code() -> (r: String)
    ensures
        r@.len() == VERIFICATION_CODE_LEN,
        forall|i: int| 0 <= i < r@.len() ==> is_code_char(#[trigger] r@[i]),
{
    rand::distr::SampleString::sample_string(
        &rand::distr::Alphanumeric,
        &mut rand::rng(),
        VERIFICATION_CODE_LEN,
    )
}

/// Relies on uuid::Uuid::new_v4 for a random identifier; the value is
/// random, so nothing is assumed of it.
#[verifier::external_body]
pub(crate) fn fresh_id() -> (r: u128) {
    uuid::Uuid::new_v4().as_u128()
}

} // verus!
