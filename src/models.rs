use vstd::prelude::*;

verus! {

/// A stored user record. `created_at` is the creation time in seconds since
/// the Unix epoch, read as local time.
#[derive(Debug, Clone)]
pub struct User {
    pub id: i32,
    pub first_name: String,
    pub last_name: String,
    pub email: String,
    pub created_at: i64,
}

/// The fields of a user as submitted for creation.
#[derive(Debug, Clone)]
pub struct InputUser {
    pub first_name: String,
    pub last_name: String,
    pub email: String,
}

/// A row to insert: the submitted fields and the creation time.
#[derive(Debug, Clone)]
pub struct NewUser {
    pub first_name: String,
    pub last_name: String,
    pub email: String,
    pub created_at: i64,
}

impl NewUser {
    pub fn from_input(user: &InputUser, created_at: i64) -> (r: NewUser)
        ensures
            r.first_name@ == user.first_name@,
            r.last_name@ == user.last_name@,
            r.email@ == user.email@,
            r.created_at == created_at,
    {
        NewUser {
            first_name: user.first_name.clone(),
            last_name: user.last_name.clone(),
            email: user.email.clone(),
            created_at,
        }
    }
}

/// Credentials presented to the admin login.
#[derive(Debug, Clone)]
pub struct LoginData {
    pub name: String,
    pub password: String,
}

impl LoginData {
    pub fn new(name: String, password: String) -> (r: LoginData)
        ensures
            r.name@ == name@,
            r.password@ == password@,
    {
        LoginData { name, password }
    }
}

} // verus!
