//! Credential-and-token authentication core.
//!
//! Three components compose linearly during a request:
//! - password hashing and checking (module `password`),
//! - issue and verification of signed, time-bounded identity tokens
//!   (modules `claims` and `token`),
//! - an interceptor that extracts a token from an authorization header
//!   and classifies failures (module `gate`).

pub mod chars;
pub mod numerals;
pub mod codec;
pub mod crypto;
pub mod claims;
pub mod config;
pub mod errors;
pub mod token;
pub mod password;
pub mod gate;
pub mod items;
