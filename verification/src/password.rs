//! Credential management: one-way hashing and checking of passwords, and
//! the login decision that collapses all failure shapes into one generic
//! answer.

use vstd::prelude::*;
use crate::crypto::{bcrypt_matches, bcrypt_hash, bcrypt_check};
use crate::errors::{HashError, AuthFailure};

verus! {

/// One-way, salted hash of a password. Distinct calls draw distinct salts,
/// so the result is no function of the password alone; what is promised is
/// that the password matches the returned record. Fails only on an
/// internal salt-generation fault.
pub fn hash_password(password: &str) -> (r: Result<String, HashError>)
    ensures
        r matches Ok(h) ==> bcrypt_matches(password@, h@),
{
    match bcrypt_hash(password) {
        Some(h) => Ok(h),
        None => Err(HashError),
    }
}

/// Whether the password matches the stored credential. A malformed or
/// unusable credential is a `false` result, not an error, so a caller
/// cannot tell a bad password from a corrupt record.
pub fn verify_password(password: &str, hash: &str) -> (r: Result<bool, HashError>)
    ensures
        r is Ok,
        r matches Ok(b) ==> b == bcrypt_matches(password@, hash@),
{
    match bcrypt_check(password, hash) {
        Some(b) => Ok(b),
        None => Ok(false),
    }
}

/// The login decision: given the stored credential of the account the
/// caller named (or none, when no such account exists) and the presented
/// password, succeed exactly when the account exists and the password
/// matches. Unknown account and wrong password yield the same generic
/// failure, so neither can be told from the other.
pub fn login_check(stored_hash: Option<&String>, password: &str) -> (r: Result<(), AuthFailure>)
    ensures
        r is Ok <==> (match stored_hash {
            Some(h) => bcrypt_matches(password@, h@),
            None => false,
        }),
        r matches Err(e) ==> e == AuthFailure,
{
    match stored_hash {
        None => Err(AuthFailure),
        Some(h) => match verify_password(password, h.as_str()) {
            Ok(true) => Ok(()),
            _ => Err(AuthFailure),
        },
    }
}

} // verus!
