//! Failure taxonomy: token issue and verification failures, rejections
//! of protected requests, and hashing faults.

use vstd::prelude::*;

verus! {

/// Why a token could not be issued or verified.
#[derive(Debug, Clone, Copy, PartialEq, Eq, Structural)]
pub enum TokenError {
    /// A non-positive time-to-live, or a clock reading outside the
    /// representable window, at issue time.
    Config,
    /// The token is not three dot-separated segments with the fixed header
    /// and a decodable claims payload.
    Malformed,
    /// The signature segment is not the keyed MAC of the first two segments.
    InvalidSignature,
    /// The token is past its expiry.
    Expired,
}

/// Why a protected request was rejected before its handler ran.
#[derive(Debug, Clone, Copy, PartialEq, Eq, Structural)]
pub enum GateError {
    /// No authorization header was present.
    MissingHeader,
    /// The header does not carry the `Bearer ` scheme.
    BadScheme,
    /// The token was malformed (internal classification; not shown to the
    /// client).
    Malformed,
    /// The signature did not match (internal classification).
    InvalidSignature,
    /// The token was expired (internal classification).
    Expired,
}

impl GateError {
    /// The uniform, low-information message shown to the client: the three
    /// token-verification failures are indistinguishable from outside.
    pub fn client_message(&self) -> (r: String)
        ensures
            *self is MissingHeader ==> r@ == "Missing authorization header"@,
            *self is BadScheme ==> r@ == "Invalid authorization header format"@,
            (*self is Malformed || *self is InvalidSignature || *self is Expired) ==> r@
                == "Invalid or expired token"@,
    {
        match self {
            GateError::MissingHeader => "Missing authorization header".to_owned(),
            GateError::BadScheme => "Invalid authorization header format".to_owned(),
            GateError::Malformed => "Invalid or expired token".to_owned(),
            GateError::InvalidSignature => "Invalid or expired token".to_owned(),
            GateError::Expired => "Invalid or expired token".to_owned(),
        }
    }
}

/// An internal, non-recoverable hashing fault (a salt-generation failure);
/// never raised for a mere mismatch.
#[derive(Debug, Clone, Copy, PartialEq, Eq, Structural)]
pub struct HashError;

/// The single authentication failure reported at login: unknown account and
/// wrong password are indistinguishable.
#[derive(Debug, Clone, Copy, PartialEq, Eq, Structural)]
pub struct AuthFailure;

impl AuthFailure {
    /// The generic message: it names neither the account nor the password.
    pub fn message(&self) -> (r: String)
        ensures
            r@ == "Invalid email or password"@,
    {
        "Invalid email or password".to_owned()
    }
}

} // verus!
