use vstd::prelude::*;

verus! {

/// Every way in which a request can be refused by the authentication and
/// authorization layer.
#[derive(Debug, Clone)]
pub enum ServiceError {
    InternalServerError,
    BadRequest(String),
    /// Signing a new token failed.
    JWTCreationError,
    /// The token is malformed or its signature does not verify.
    JWTokenError,
    /// Authenticated, but the operation's role/ownership rule denies access.
    NoPermissionError,
    /// The token verifies but its expiry time has passed.
    TokenExpiredError,
    /// No credential, or the issuance credentials were not accepted.
    Unauthenticated,
}

impl ServiceError {
    /// Whether the error means the caller is not (or no longer) authenticated,
    /// as opposed to being authenticated without sufficient rights.
    pub fn is_authentication_failure(&self) -> (r: bool)
        ensures
            r == (self is JWTokenError || self is TokenExpiredError || self is Unauthenticated),
    {
        match self {
            ServiceError::JWTokenError => true,
            ServiceError::TokenExpiredError => true,
            ServiceError::Unauthenticated => true,
            _ => false,
        }
    }
}

} // verus!
