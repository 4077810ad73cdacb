//! The user record, its roles, and its well-formedness invariant.

use vstd::prelude::*;

use crate::text::str_eq;

verus! {

/// The role a user holds; assigned at creation, `Member` by default.
#[derive(Debug, Clone, Copy, PartialEq, Eq, Structural)]
pub enum UserRole {
    SuperAdmin,
    Admin,
    Member,
    Treasurer,
}

/// The role named by a lowercase wire string, if any.
pub open spec fn role_of_str(s: Seq<char>) -> Option<UserRole> {
    if s == "super_admin"@ {
        Some(UserRole::SuperAdmin)
    } else if s == "admin"@ {
        Some(UserRole::Admin)
    } else if s == "member"@ {
        Some(UserRole::Member)
    } else if s == "treasurer"@ {
        Some(UserRole::Treasurer)
    } else {
        None
    }
}

impl UserRole {
    /// Parses the lowercase wire form of a role name.
    pub fn from_str(s: &str) -> (r: Result<UserRole, ()>)
        ensures
            match r {
                Ok(role) => role_of_str(s@) == Some(role),
                Err(()) => role_of_str(s@) is None,
            },
    {
        if str_eq(s, "super_admin") {
            Ok(UserRole::SuperAdmin)
        } else if str_eq(s, "admin") {
            Ok(UserRole::Admin)
        } else if str_eq(s, "member") {
            Ok(UserRole::Member)
        } else if str_eq(s, "treasurer") {
            Ok(UserRole::Treasurer)
        } else {
            Err(())
        }
    }
}

/// The mathematical value of a user record.
#[verifier::ext_equal]
pub ghost struct UserV {
    pub id: u128,
    pub fullname: Seq<char>,
    pub email: Seq<char>,
    pub password_hash: Seq<char>,
    pub user_role: UserRole,
    pub email_verification_code: Option<Seq<char>>,
    pub email_verification_expires_at: Option<i64>,
    pub is_email_verified: bool,
    pub is_active: bool,
    pub created_at: i64,
    pub updated_at: i64,
}

/// A stored user record.
#[derive(Debug)]
pub struct User {
    pub id: u128,
    pub fullname: String,
    pub email: String,
    pub password_hash: String,
    pub user_role: UserRole,
    pub email_verification_code: Option<String>,
    pub email_verification_expires_at: Option<i64>,
    pub is_email_verified: bool,
    pub is_active: bool,
    pub created_at: i64,
    pub updated_at: i64,
}

impl View for User {
    type V = UserV;

    open spec fn view(&self) -> UserV {
        UserV {
            id: self.id,
            fullname: self.fullname@,
            email: self.email@,
            password_hash: self.password_hash@,
            user_role: self.user_role,
            email_verification_code: match self.email_verification_code {
                Some(code) => Some(code@),
                None => None,
            },
            email_verification_expires_at: self.email_verification_expires_at,
            is_email_verified: self.is_email_verified,
            is_active: self.is_active,
            created_at: self.created_at,
            updated_at: self.updated_at,
        }
    }
}

/// A verified user never carries a verification code; an unverified user
/// always carries one, together with its expiry.
pub open spec fn user_wf(u: UserV) -> bool {
    &&& u.is_email_verified ==> u.email_verification_code is None
        && u.email_verification_expires_at is None
    &&& !u.is_email_verified ==> u.email_verification_code is Some
        && u.email_verification_expires_at is Some
}

impl Clone for User {
    /// A clone carries exactly the same record.
    fn clone(&self) -> (r: Self)
        ensures
            r@ == self@,
    {
        User {
            id: self.id,
            fullname: self.fullname.clone(),
            email: self.email.clone(),
            password_hash: self.password_hash.clone(),
            user_role: self.user_role,
            email_verification_code: match &self.email_verification_code {
                Some(code) => Some(code.clone()),
                None => None,
            },
            email_verification_expires_at: self.email_verification_expires_at,
            is_email_verified: self.is_email_verified,
            is_active: self.is_active,
            created_at: self.created_at,
            updated_at: self.updated_at,
        }
    }
}

impl User {
    /// Checks a plaintext password against this record's stored hash; a
    /// malformed stored hash is rejected rather than reported as an error.
    pub fn verify_password(&self, password: &str) -> (r: bool)
        ensures
            r == crate::hashing::bcrypt_accepts(password@, self.password_hash@),
    {
        crate::hashing::verify_password(password, self.password_hash.as_str())
    }
}

/// What a registration hands to the store: profile fields, the plaintext
/// password to be hashed, and the initial role and activation flag.
#[derive(Debug, Clone)]
pub struct CreateUser {
    pub fullname: String,
    pub email: String,
    pub password_hash: String,
    pub user_role: UserRole,
    pub is_active: bool,
}

} // verus!
