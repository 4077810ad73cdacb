//! The authentication flows: registration, login, email verification,
//! verification resend, and account activation toggling.
//!
//! Each flow reads the clock and the entropy source itself; its contract
//! states what holds for every value those sources can return, over the
//! store transitions of `crate::store`.

use vstd::prelude::*;

use crate::clock::current_time;
use crate::email::Notification;
use crate::email::NotificationKind;
use crate::errors::AuthError;
use crate::hashing::bcrypt_accepts;
use crate::policy::is_admin_role;
use crate::store::email_idx;
use crate::store::has_email;
use crate::store::has_id;
use crate::store::id_idx;
use crate::store::login_spec;
use crate::store::recoded_user;
use crate::store::store_wf;
use crate::store::toggled_user;
use crate::store::user_with_email;
use crate::store::user_with_id;
use crate::store::verify_email_spec;
use crate::store::CredentialStore;
use crate::token::claims_for;
use crate::token::encode_spec;
use crate::token::generate_token;
use crate::user::role_of_str;
use crate::user::CreateUser;
use crate::user::User;
use crate::user::UserRole;

verus! {

/// What a registration request carries.
#[derive(Debug, Clone)]
pub struct RegisterRequest {
    pub fullname: String,
    pub email: String,
    pub password: String,
    /// A requested role name; an absent or unknown name means `Member`.
    pub user_role: Option<String>,
    /// The initial activation flag; absent means inactive.
    pub is_active: Option<bool>,
}

/// What a login request carries.
#[derive(Debug, Clone)]
pub struct LoginRequest {
    pub email: String,
    pub password: String,
}

/// The public part of a user record, returned to the client.
#[derive(Debug, Clone)]
pub struct UserInfo {
    pub id: u128,
    pub fullname: String,
    pub email: String,
}

/// A successful authentication: the session token and the public user info.
#[derive(Debug, Clone)]
pub struct AuthResponse {
    pub token: String,
    pub user: UserInfo,
}

/// The role a registration request asks for: an absent or unknown role
/// name means `Member`.
pub open spec fn requested_role(request: &RegisterRequest) -> UserRole {
    match request.user_role {
        Some(name) => match role_of_str(name@) {
            Some(role) => role,
            None => UserRole::Member,
        },
        None => UserRole::Member,
    }
}

/// The activation flag a registration request asks for: absent means
/// inactive.
pub open spec fn requested_active(request: &RegisterRequest) -> bool {
    match request.is_active {
        Some(flag) => flag,
        None => false,
    }
}

/// Registers a new account: refused exactly when the email is taken (or the
/// signing secret is unavailable, checked first). On success the store
/// grows by one unverified record, the caller is handed a session token at
/// once, and a verification email is requested from the notifier.
pub fn register(store: &mut CredentialStore, request: &RegisterRequest, secret: &str) -> (r:
    Result<(AuthResponse, Notification), AuthError>)
    requires
        store_wf(old(store)@),
    ensures
        store_wf(final(store)@),
        secret@.len() == 0 ==> (r matches Err(e) && e == AuthError::ConfigurationError && final(store)@
            == old(store)@),
        r matches Err(e) && e == AuthError::ConfigurationError ==> secret@.len() == 0,
        secret@.len() > 0 ==> (has_email(old(store)@, request.email@) <==> (r matches Err(e)
            && e matches AuthError::EmailAlreadyExists { .. })),
        match r {
            Err(AuthError::EmailAlreadyExists { email }) => email@ == request.email@,
            _ => true,
        },
        r matches Err(_) ==> final(store)@ == old(store)@,
        r matches Ok(pair) ==> ({
            let u = final(store)@.last();
            &&& !has_email(old(store)@, request.email@)
            &&& final(store)@ == old(store)@.push(u)
            &&& u.email == request.email@
            &&& u.fullname == request.fullname@
            &&& u.user_role == requested_role(request)
            &&& u.is_active == requested_active(request)
            &&& !u.is_email_verified
            &&& bcrypt_accepts(request.password@, u.password_hash)
            &&& pair.0.user.id == u.id
            &&& pair.0.user.email@ == u.email
            &&& pair.0.user.fullname@ == u.fullname
            &&& (exists|iat: i64|
                0 <= iat && pair.0.token@ == encode_spec(claims_for(u, iat), secret@))
            &&& pair.1.to_email@ == u.email
            &&& pair.1.to_name@ == u.fullname
            &&& (pair.1.kind matches NotificationKind::Verification { code } && Some(code@)
                == u.email_verification_code)
        }),
{
    if secret.is_empty() {
        return Err(AuthError::ConfigurationError);
    }
    let user_role = match &request.user_role {
        Some(name) => match UserRole::from_str(name.as_str()) {
            Ok(role) => role,
            Err(()) => UserRole::Member,
        },
        None => UserRole::Member,
    };
    let is_active = match request.is_active {
        Some(flag) => flag,
        None => false,
    };
    let create_user = CreateUser {
        fullname: request.fullname.clone(),
        email: request.email.clone(),
        password_hash: request.password.clone(),
        user_role,
        is_active,
    };
    let now = current_time();
    let user = match store.create(create_user, now) {
        Ok(user) => user,
        Err(e) => {
            return Err(e);
        },
    };
    let token = match generate_token(&user, secret) {
        Ok(token) => token,
        Err(e) => {
            return Err(e);
        },
    };
    let code = match &user.email_verification_code {
        Some(code) => code.clone(),
        None => String::new(),
    };
    let notification = Notification {
        to_email: user.email.clone(),
        to_name: user.fullname.clone(),
        kind: NotificationKind::Verification { code },
    };
    let response = AuthResponse {
        token,
        user: UserInfo { id: user.id, fullname: user.fullname, email: user.email },
    };
    Ok((response, notification))
}

/// Logs a user in: the stored decision is `login_spec`, and on success a
/// fresh session token is issued (unless the signing secret is
/// unavailable).
pub fn login(store: &CredentialStore, request: &LoginRequest, secret: &str) -> (r: Result<
    AuthResponse,
    AuthError,
>)
    requires
        store_wf(store@),
    ensures
        login_spec(store@, request.email@, request.password@) matches Err(e) ==> (r matches Err(
            e2,
        ) && e2 == e),
        login_spec(store@, request.email@, request.password@) matches Ok(u) ==> ({
            if secret@.len() == 0 {
                r matches Err(e) && e == AuthError::ConfigurationError
            } else {
                r matches Ok(resp) && resp.user.id == u.id && resp.user.email@ == u.email
                    && resp.user.fullname@ == u.fullname && (exists|iat: i64|
                    0 <= iat && resp.token@ == encode_spec(claims_for(u, iat), secret@))
            }
        }),
{
    let user = match store.authenticate(request.email.as_str(), request.password.as_str()) {
        Some(user) => user,
        None => {
            return Err(AuthError::InvalidCredentials);
        },
    };
    if !user.is_active {
        return Err(AuthError::AccountInactive);
    }
    if !user.is_email_verified {
        return Err(AuthError::EmailNotVerified);
    }
    let token = match generate_token(&user, secret) {
        Ok(token) => token,
        Err(e) => {
            return Err(e);
        },
    };
    Ok(
        AuthResponse {
            token,
            user: UserInfo { id: user.id, fullname: user.fullname, email: user.email },
        },
    )
}

/// How the email-verification flow's result relates to the store
/// transition taken at time `now`: the state moves as `verify_email_spec`
/// says, and success yields a welcome notification for the verified user.
pub open spec fn verify_flow_matches(
    pre: Seq<crate::user::UserV>,
    post: Seq<crate::user::UserV>,
    code: Seq<char>,
    now: i64,
    r: Result<Notification, AuthError>,
) -> bool {
    &&& post == verify_email_spec(pre, code, now).1
    &&& match (r, verify_email_spec(pre, code, now).0) {
        (Ok(n), Ok(u)) => n.to_email@ == u.email && n.to_name@ == u.fullname && n.kind is Welcome,
        (Err(e), Err(e2)) => e == e2,
        _ => false,
    }
}

/// Verifies an email address by its single-use code, at the current time;
/// on success a welcome notification is requested from the notifier.
pub fn verify_email(store: &mut CredentialStore, code: &str) -> (r: Result<
    Notification,
    AuthError,
>)
    requires
        store_wf(old(store)@),
    ensures
        store_wf(final(store)@),
        exists|now: i64|
            0 <= now && #[trigger] verify_flow_matches(old(store)@, final(store)@, code@, now, r),
{
    let now = current_time();
    let r = match store.verify_email(code, now) {
        Ok(user) => Ok(
            Notification {
                to_email: user.email,
                to_name: user.fullname,
                kind: NotificationKind::Welcome,
            },
        ),
        Err(e) => Err(e),
    };
    proof {
        assert(verify_flow_matches(old(store)@, final(store)@, code@, now, r));
    }
    r
}

/// Re-issues a verification code and asks the notifier for a new
/// verification email. An unknown email is refused; an already-verified
/// account is an idempotent success with nothing to send.
pub fn resend_verification(store: &mut CredentialStore, email: &str) -> (r: Result<
    Option<Notification>,
    AuthError,
>)
    requires
        store_wf(old(store)@),
    ensures
        store_wf(final(store)@),
        r is Err <==> !has_email(old(store)@, email@),
        r matches Err(e) ==> e matches AuthError::NotFoundByEmail { .. },
        match r {
            Err(AuthError::NotFoundByEmail { email: missing }) => missing@ == email@,
            _ => true,
        },
        r matches Err(_) ==> final(store)@ == old(store)@,
        r matches Ok(sent) ==> has_email(old(store)@, email@) && ({
            let w = user_with_email(old(store)@, email@);
            if w.is_email_verified {
                sent is None && final(store)@ == old(store)@
            } else {
                exists|now: i64, code: Seq<char>|
                    {
                        &&& 0 <= now
                        &&& sent matches Some(n) && (n.kind matches
                            NotificationKind::Verification { code: wire } && wire@ == code)
                            && n.to_email@ == w.email && n.to_name@ == w.fullname
                        &&& final(store)@ == old(store)@.update(
                            email_idx(old(store)@, email@),
                            #[trigger] recoded_user(w, code, now),
                        )
                    }
            }
        }),
{
    let now = current_time();
    let user = match store.resend_verification_code(email, now) {
        Ok(user) => user,
        Err(e) => {
            return Err(e);
        },
    };
    if user.is_email_verified {
        return Ok(None);
    }
    let code = match &user.email_verification_code {
        Some(code) => code.clone(),
        None => String::new(),
    };
    let notification = Notification {
        to_email: user.email,
        to_name: user.fullname,
        kind: NotificationKind::Verification { code },
    };
    let r = Ok(Some(notification));
    proof {
        let w = user_with_email(old(store)@, email@);
        let fresh = choose|c: Seq<char>|
            {
                &&& c.len() == crate::entropy::VERIFICATION_CODE_LEN
                &&& (forall|i: int|
                    0 <= i < c.len() ==> crate::entropy::is_code_char(#[trigger] c[i]))
                &&& user@ == #[trigger] recoded_user(w, c, now)
                &&& final(store)@ == old(store)@.update(email_idx(old(store)@, email@), user@)
            };
        assert(user@ == recoded_user(w, fresh, now));
        assert(final(store)@ == old(store)@.update(email_idx(old(store)@, email@), recoded_user(w, fresh, now)));
    }
    r
}

/// The delivery policy of the resend flow: its entire purpose is the
/// email, so a failed send fails the operation with `NotificationFailed`.
pub fn resend_delivery_result(sent: bool) -> (r: Result<(), AuthError>)
    ensures
        sent <==> r is Ok,
        !sent ==> (r matches Err(e) && e == AuthError::NotificationFailed),
{
    if sent {
        Ok(())
    } else {
        Err(AuthError::NotificationFailed)
    }
}

/// Toggles another account's activation: only administrators may, never on
/// themselves; then the target's flag is flipped at the current time.
pub fn toggle_user_active(
    store: &mut CredentialStore,
    caller_identity: u128,
    caller_role: UserRole,
    target_id: u128,
) -> (r: Result<User, AuthError>)
    requires
        store_wf(old(store)@),
    ensures
        store_wf(final(store)@),
        !is_admin_role(caller_role) ==> (r matches Err(e) && e == AuthError::PermissionDenied
            && final(store)@ == old(store)@),
        is_admin_role(caller_role) && caller_identity == target_id ==> (r matches Err(e) && e
            == AuthError::CannotDeactivateSelf && final(store)@ == old(store)@),
        is_admin_role(caller_role) && caller_identity != target_id && !has_id(
            old(store)@,
            target_id,
        ) ==> (r matches Err(e) && e == (AuthError::NotFound { id: target_id }) && final(store)@ == old(
            store,
        )@),
        is_admin_role(caller_role) && caller_identity != target_id && has_id(
            old(store)@,
            target_id,
        ) ==> (r matches Ok(u) && (exists|now: i64|
            0 <= now && u@ == #[trigger] toggled_user(user_with_id(old(store)@, target_id), now)
                && final(store)@ == old(store)@.update(id_idx(old(store)@, target_id), u@))),
{
    if !(matches!(caller_role, UserRole::Admin) || matches!(caller_role, UserRole::SuperAdmin)) {
        return Err(AuthError::PermissionDenied);
    }
    if caller_identity == target_id {
        return Err(AuthError::CannotDeactivateSelf);
    }
    let now = current_time();
    store.toggle_active(target_id, now)
}

} // verus!
