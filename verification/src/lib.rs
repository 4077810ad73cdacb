//! Authentication and authorization core for a membership portal.
//!
//! The crate covers credential verification, session-token issue and
//! validation, the email-verification lifecycle, and the role/ownership
//! access-control policy, over an in-memory credential store.

pub mod auth;
pub mod clock;
pub mod digits;
pub mod email;
pub mod entropy;
pub mod errors;
pub mod hashing;
pub mod laws;
pub mod policy;
pub mod response;
pub mod store;
pub mod text;
pub mod token;
pub mod user;
