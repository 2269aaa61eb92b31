use crate::claims::{claims_json, Claims};
use crate::errors::ServiceError;
use crate::models::LoginData;
use crate::role::{has_at_least, rank, Role};
use crate::token::{expiry_after, issue_token, signed_token};
use vstd::prelude::*;

verus! {

/// Listing all users needs at least `ReadAll`.
pub open spec fn may_list(c: Claims) -> bool {
    rank(c.role) >= rank(Role::ReadAll)
}

/// A user may read their own record; others need at least `ReadAll`.
pub open spec fn may_read(c: Claims, id: i32) -> bool {
    c.uid == id || rank(c.role) >= rank(Role::ReadAll)
}

/// A user may delete their own record; others need at least `WriteAll`.
pub open spec fn may_delete(c: Claims, id: i32) -> bool {
    c.uid == id || rank(c.role) >= rank(Role::WriteAll)
}

pub open spec fn decision(allowed: bool) -> Result<(), ServiceError> {
    if allowed {
        Ok(())
    } else {
        Err(ServiceError::NoPermissionError)
    }
}

/// Authorizes listing all users.
pub fn get_users(claims: &Claims) -> (r: Result<(), ServiceError>)
    ensures
        r == decision(may_list(*claims)),
{
    if has_at_least(claims.role, Role::ReadAll) {
        Ok(())
    } else {
        Err(ServiceError::NoPermissionError)
    }
}

/// Authorizes reading the user `user_id`: ownership first, then role.
pub fn get_user_by_id(claims: &Claims, user_id: i32) -> (r: Result<(), ServiceError>)
    ensures
        r == decision(may_read(*claims, user_id)),
{
    if claims.uid == user_id || has_at_least(claims.role, Role::ReadAll) {
        Ok(())
    } else {
        Err(ServiceError::NoPermissionError)
    }
}

/// Authorizes deleting the user `user_id`: ownership first, then role.
pub fn delete_user(claims: &Claims, user_id: i32) -> (r: Result<(), ServiceError>)
    ensures
        r == decision(may_delete(*claims, user_id)),
{
    if claims.uid == user_id || has_at_least(claims.role, Role::WriteAll) {
        Ok(())
    } else {
        Err(ServiceError::NoPermissionError)
    }
}

/// The one pair of credentials that the admin login accepts.
pub open spec fn admin_credentials(name: Seq<char>, password: Seq<char>) -> bool {
    name == "hugo"@ && password == "hugo"@
}

/// Subject id carried by admin tokens; it owns no user record.
pub const ADMIN_SUBJECT: i32 = 0;

/// Whether two strings hold the same characters.
fn same_text(a: &String, b: &str) -> (r: bool)
    ensures
        r == (a@ == b@),
{
    let expected = String::from_str(b);
    *a == expected
}

/// Issues an `Admin` token for subject 0 at time `now` when the credentials
/// are exactly the configured pair; refuses any other pair as unauthenticated.
pub fn admin_login(credentials: &LoginData, secret: &[u8], now: i64) -> (r: Result<String, ServiceError>)
    ensures
        !admin_credentials(credentials.name@, credentials.password@) ==> r == Err::<
            String,
            ServiceError,
        >(ServiceError::Unauthenticated),
        admin_credentials(credentials.name@, credentials.password@) && expiry_after(now) is None
            ==> r == Err::<String, ServiceError>(ServiceError::JWTCreationError),
        admin_credentials(credentials.name@, credentials.password@) ==> (expiry_after(now) matches Some(
            e,
        ) ==> (r matches Ok(t) && t@ == signed_token(
            secret@,
            claims_json(Claims { exp: e, uid: ADMIN_SUBJECT, role: Role::Admin }),
        ))),
{
    if same_text(&credentials.password, "hugo") && same_text(&credentials.name, "hugo") {
        issue_token(ADMIN_SUBJECT, Role::Admin, now, secret)
    } else {
        Err(ServiceError::Unauthenticated)
    }
}

/// Ownership overrides role: a user without any role may read and delete
/// their own record and no one else's, while `WriteAll` may delete any record.
pub proof fn lemma_ownership_bypass(uid: i32, exp: usize, id: i32)
    ensures
        may_read(Claims { exp, uid, role: Role::NoRole }, uid),
        may_delete(Claims { exp, uid, role: Role::NoRole }, uid),
        id != uid ==> !may_read(Claims { exp, uid, role: Role::NoRole }, id),
        id != uid ==> !may_delete(Claims { exp, uid, role: Role::NoRole }, id),
        may_delete(Claims { exp, uid, role: Role::WriteAll }, id),
{
}

} // verus!
