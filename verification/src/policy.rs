//! The role/ownership authorization policy, applied by every mutation
//! endpoint.

use vstd::prelude::*;

use crate::user::UserRole;

verus! {

/// Whether `caller_role` is one of the administrator roles.
pub open spec fn is_admin_role(role: UserRole) -> bool {
    role == UserRole::Admin || role == UserRole::SuperAdmin
}

/// A caller may mutate a resource exactly when the caller owns it or holds an
/// administrator role.
pub fn can_mutate(caller_identity: u128, caller_role: UserRole, resource_owner_identity: u128) -> (r:
    bool)
    ensures
        r == (caller_identity == resource_owner_identity || is_admin_role(caller_role)),
{
    caller_identity == resource_owner_identity || caller_role == UserRole::Admin || caller_role
        == UserRole::SuperAdmin
}

/// A caller may toggle another account's activation exactly when the caller
/// holds an administrator role and is not the target: self-deactivation is
/// blocked regardless of role.
pub fn can_deactivate(caller_identity: u128, caller_role: UserRole, target_identity: u128) -> (r:
    bool)
    ensures
        r == (is_admin_role(caller_role) && caller_identity != target_identity),
{
    (caller_role == UserRole::Admin || caller_role == UserRole::SuperAdmin) && caller_identity
        != target_identity
}

} // verus!
