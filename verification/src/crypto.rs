//! Trusted cryptographic primitives: HMAC-SHA256 signing (through
//! jsonwebtoken), password hashing and checking (through bcrypt), and the
//! wall clock (through chrono).

use vstd::prelude::*;

verus! {

/// Base64url-encoded HMAC-SHA256 signature over `msg`, keyed by `secret`,
/// as jsonwebtoken's HS256 signing produces it: a deterministic function of
/// key and message.
pub uninterp spec fn hs256_sig(secret: Seq<u8>, msg: Seq<u8>) -> Seq<char>;

/// Relies on jsonwebtoken's `crypto::sign` with `Algorithm::HS256` and a
/// key built by `EncodingKey::from_secret`: the HMAC-SHA256 tag of the
/// message, base64url-encoded without padding. Signing cannot fail here:
/// the key family is the HMAC one that `from_secret` builds, and HMAC
/// accepts keys of any length.
#[verifier::external_body]
pub fn hs256_sign(secret: &Vec<u8>, msg: &Vec<u8>) -> (r: Vec<char>)
    ensures
        r@ == hs256_sig(secret@, msg@),
        forall|k: int| 0 <= k < r@.len() ==> crate::codec::is_b64_char(#[trigger] r@[k]),
{
    let key = jsonwebtoken::EncodingKey::from_secret(secret);
    let tag = jsonwebtoken::crypto::sign(msg, &key, jsonwebtoken::Algorithm::HS256)
        .expect("HMAC signing is infallible");
    tag.chars().collect()
}

/// Whether bcrypt's `verify` accepts `password` against the encoded hash
/// record `hash` (that is, returns `Ok(true)`).
pub uninterp spec fn bcrypt_matches(password: Seq<char>, hash: Seq<char>) -> bool;

/// Relies on bcrypt's `hash` with `DEFAULT_COST`: on success the returned
/// record is well formed and bcrypt's `verify` accepts the hashed password
/// against it; it fails only on a salt-generation fault.
#[verifier::external_body]
pub fn bcrypt_hash(password: &str) -> (r: Option<String>)
    ensures
        match r {
            Some(h) => bcrypt_matches(password@, h@),
            None => true,
        },
{
    match bcrypt::hash(password, bcrypt::DEFAULT_COST) {
        Ok(h) => Some(h),
        Err(_) => None,
    }
}

/// Relies on bcrypt's `verify`: `Ok(b)` reports exactly whether the password
/// matches the hash record; it errs only when the record itself is
/// unusable (unparsable, or naming a cost outside bcrypt's range), in which
/// case no password whatsoever matches it.
#[verifier::external_body]
pub fn bcrypt_check(password: &str, hash: &str) -> (r: Option<bool>)
    ensures
        match r {
            Some(b) => b == bcrypt_matches(password@, hash@),
            None => forall|p: Seq<char>| !bcrypt_matches(p, hash@),
        },
{
    match bcrypt::verify(password, hash) {
        Ok(b) => Some(b),
        Err(_) => None,
    }
}

/// Relies on chrono's `Utc::now`: whole seconds since the Unix epoch at the
/// moment of the call. Nothing is assumed of the value.
#[verifier::external_body]
pub fn now_seconds() -> i64 {
    chrono::Utc::now().timestamp()
}

} // verus!
