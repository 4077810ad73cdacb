//! The core's cross-cutting guarantees, stated and proved over the store
//! transitions and the login decision.

use vstd::prelude::*;

use crate::errors::AuthError;
use crate::hashing::bcrypt_accepts;
use crate::store::first_code_idx;
use crate::store::has_code;
use crate::store::has_email;
use crate::store::lemma_first_code_idx;
use crate::store::login_spec;
use crate::store::store_wf;
use crate::store::user_with_email;
use crate::store::verify_email_spec;
use crate::user::user_wf;
use crate::user::UserV;

verus! {

/// A store extended by a successful registration carries the new record's
/// email, so `CredentialStore::create` refuses a second registration with
/// that email: its conflict clause is an if-and-only-if over `has_email`.
pub proof fn lemma_duplicate_email_conflicts(s: Seq<UserV>, u: UserV)
    ensures
        has_email(s.push(u), u.email),
{
    assert(s.push(u)[s.len() as int] == u);
}

/// Registration never un-registers anyone: every email present before a
/// record is appended is still present afterwards.
pub proof fn lemma_registered_email_stays(s: Seq<UserV>, u: UserV, email: Seq<char>)
    requires
        has_email(s, email),
    ensures
        has_email(s.push(u), email),
{
    let i = choose|i: int| 0 <= i < s.len() && (#[trigger] s[i]).email == email;
    assert(s.push(u)[i] == s[i]);
}

/// Whether at most one record of `s` carries `code`.
pub open spec fn unique_code_holder(s: Seq<UserV>, code: Seq<char>) -> bool {
    forall|i: int, j: int|
        0 <= i < j < s.len() ==> !((#[trigger] s[i]).email_verification_code == Some(code) && (
        #[trigger] s[j]).email_verification_code == Some(code))
}

/// A verification code is accepted exactly once: when a code held by a
/// single record is successfully consumed, presenting the same code again
/// fails with `InvalidVerificationCode` and leaves the store as it was.
pub proof fn lemma_verification_code_single_use(
    s: Seq<UserV>,
    code: Seq<char>,
    now: i64,
    later: i64,
)
    requires
        unique_code_holder(s, code),
        verify_email_spec(s, code, now).0 is Ok,
    ensures
        ({
            let after = verify_email_spec(s, code, now).1;
            verify_email_spec(after, code, later) == (
                Err::<UserV, AuthError>(AuthError::InvalidVerificationCode),
                after,
            )
        }),
{
    assert(has_code(s, code));
    lemma_first_code_idx(s, code);
    let i = first_code_idx(s, code);
    let after = verify_email_spec(s, code, now).1;
    assert forall|j: int|
        0 <= j < after.len() implies (#[trigger] after[j]).email_verification_code != Some(
        code,
    ) by {
        if j != i {
            assert(after[j] == s[j]);
            if s[j].email_verification_code == Some(code) {
                assert(s[i].email_verification_code == Some(code));
            }
        }
    }
    assert(!has_code(after, code));
}

/// An expired verification code is refused without being revived or
/// silently cleared: the store is untouched, its holder remains unverified
/// with the same code in place, and any later attempt is refused the same
/// way.
pub proof fn lemma_expired_code_stays_rejected(
    s: Seq<UserV>,
    code: Seq<char>,
    now: i64,
    later: i64,
)
    requires
        store_wf(s),
        verify_email_spec(s, code, now).0 == Err::<UserV, AuthError>(
            AuthError::VerificationCodeExpired,
        ),
        later >= now,
    ensures
        verify_email_spec(s, code, now).1 == s,
        ({
            let holder = s[first_code_idx(s, code)];
            !holder.is_email_verified && holder.email_verification_code == Some(code)
        }),
        verify_email_spec(s, code, later) == (
            Err::<UserV, AuthError>(AuthError::VerificationCodeExpired),
            s,
        ),
{
    assert(has_code(s, code));
    lemma_first_code_idx(s, code);
    let holder = s[first_code_idx(s, code)];
    assert(user_wf(holder));
}

/// A login against an unknown email is refused as `InvalidCredentials`.
pub proof fn lemma_login_unknown_email(s: Seq<UserV>, email: Seq<char>, password: Seq<char>)
    requires
        !has_email(s, email),
    ensures
        login_spec(s, email, password) == Err::<UserV, AuthError>(AuthError::InvalidCredentials),
{
}

/// A login with a wrong password is refused as `InvalidCredentials`.
pub proof fn lemma_login_wrong_password(s: Seq<UserV>, email: Seq<char>, password: Seq<char>)
    requires
        has_email(s, email),
        !bcrypt_accepts(password, user_with_email(s, email).password_hash),
    ensures
        login_spec(s, email, password) == Err::<UserV, AuthError>(AuthError::InvalidCredentials),
{
}

/// An unknown email and a wrong password yield the very same result, so
/// the response cannot be used to enumerate accounts.
pub proof fn lemma_login_rejections_indistinguishable(
    s: Seq<UserV>,
    unknown_email: Seq<char>,
    any_password: Seq<char>,
    known_email: Seq<char>,
    wrong_password: Seq<char>,
)
    requires
        !has_email(s, unknown_email),
        has_email(s, known_email),
        !bcrypt_accepts(wrong_password, user_with_email(s, known_email).password_hash),
    ensures
        login_spec(s, unknown_email, any_password) == login_spec(s, known_email, wrong_password),
{
}

/// A correct password against an inactive account is refused as
/// `AccountInactive`.
pub proof fn lemma_login_inactive(s: Seq<UserV>, email: Seq<char>, password: Seq<char>)
    requires
        has_email(s, email),
        bcrypt_accepts(password, user_with_email(s, email).password_hash),
        !user_with_email(s, email).is_active,
    ensures
        login_spec(s, email, password) == Err::<UserV, AuthError>(AuthError::AccountInactive),
{
}

/// A correct password against an active but unverified account is refused
/// as `EmailNotVerified`.
pub proof fn lemma_login_unverified(s: Seq<UserV>, email: Seq<char>, password: Seq<char>)
    requires
        has_email(s, email),
        bcrypt_accepts(password, user_with_email(s, email).password_hash),
        user_with_email(s, email).is_active,
        !user_with_email(s, email).is_email_verified,
    ensures
        login_spec(s, email, password) == Err::<UserV, AuthError>(AuthError::EmailNotVerified),
{
}

/// A correct password against an active, verified account succeeds and
/// returns that account's record.
pub proof fn lemma_login_success(s: Seq<UserV>, email: Seq<char>, password: Seq<char>)
    requires
        has_email(s, email),
        bcrypt_accepts(password, user_with_email(s, email).password_hash),
        user_with_email(s, email).is_active,
        user_with_email(s, email).is_email_verified,
    ensures
        login_spec(s, email, password) == Ok::<UserV, AuthError>(user_with_email(s, email)),
{
}

} // verus!
