//! Token-based authentication and role/ownership authorization for a small
//! user-resource service.
pub mod claims;
pub mod errors;
pub mod models;
pub mod payload;
pub mod policy;
pub mod role;
pub mod token;
