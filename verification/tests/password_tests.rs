use auth_core::password::{hash_password, verify_password, login_check};
use auth_core::errors::AuthFailure;

#[test]
fn hash_then_verify_matches() {
    let p = "correct horse battery staple";
    let h = hash_password(p).expect("hashing succeeds");
    assert_eq!(verify_password(p, &h), Ok(true));
}

#[test]
fn verify_rejects_other_password() {
    let h = hash_password("first password").expect("hashing succeeds");
    assert_eq!(verify_password("second password", &h), Ok(false));
}

#[test]
fn hash_is_salted_yet_both_verify() {
    let p = "same input";
    let h1 = hash_password(p).expect("hashing succeeds");
    let h2 = hash_password(p).expect("hashing succeeds");
    assert_ne!(h1, h2);
    assert_eq!(verify_password(p, &h1), Ok(true));
    assert_eq!(verify_password(p, &h2), Ok(true));
}

#[test]
fn malformed_credential_is_false_not_error() {
    assert_eq!(verify_password("anything", "not a bcrypt record"), Ok(false));
    assert_eq!(verify_password("anything", ""), Ok(false));
}

#[test]
fn login_wrong_password_is_generic_failure() {
    let h = hash_password("the right password").expect("hashing succeeds");
    let wrong = login_check(Some(&h), "the wrong password");
    let unknown = login_check(None, "the right password");
    assert_eq!(wrong, Err(AuthFailure));
    assert_eq!(unknown, Err(AuthFailure));
    // unknown account and wrong password are indistinguishable
    assert_eq!(wrong, unknown);
    assert_eq!(AuthFailure.message(), "Invalid email or password");
}

#[test]
fn login_right_password_succeeds() {
    let h = hash_password("open sesame").expect("hashing succeeds");
    assert_eq!(login_check(Some(&h), "open sesame"), Ok(()));
}
