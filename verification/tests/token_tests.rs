use auth_core::config::Config;
use base64::Engine;
use auth_core::errors::TokenError;
use auth_core::token::{create_token, create_token_at, verify_token, verify_token_at};

fn test_config(ttl: i64) -> Config {
    Config {
        host: "127.0.0.1".to_string(),
        port: 8000,
        database_url: String::new(),
        jwt_secret: "a-test-secret-of-reasonable-length".to_string(),
        jwt_expiration: ttl,
        app_env: "development".to_string(),
    }
}

#[test]
fn round_trip_returns_claims() {
    let config = test_config(3600);
    let now: i64 = 1_700_000_000;
    let t = create_token_at("user-123", "a@b.com", now, 3600, &config);
    let claims = verify_token_at(&t, now, &config).expect("fresh token verifies");
    assert_eq!(claims.sub, "user-123");
    assert_eq!(claims.email, "a@b.com");
    assert_eq!(claims.iat, now);
    assert_eq!(claims.exp - claims.iat, 3600);
    // still valid just before expiry
    assert!(verify_token_at(&t, now + 3600, &config).is_ok());
}

#[test]
fn round_trip_with_awkward_characters() {
    let config = test_config(60);
    let now: i64 = 5_000;
    let sub = "id-\"quoted\"-\\slash\\";
    let email = "weird\n\tname+tag@exämple.com\u{1F512}";
    let t = create_token_at(sub, email, now, 60, &config);
    let claims = verify_token_at(&t, now, &config).expect("token verifies");
    assert_eq!(claims.sub, sub);
    assert_eq!(claims.email, email);
}

#[test]
fn expired_token_is_classified_expired() {
    let config = test_config(1);
    let now: i64 = 1_000;
    let t = create_token_at("user-1", "a@b.com", now, 1, &config);
    assert_eq!(verify_token_at(&t, now + 2, &config), Err(TokenError::Expired));
}

#[test]
fn tampered_signature_never_verifies() {
    let config = test_config(3600);
    let now: i64 = 42;
    let t = create_token_at("user-1", "a@b.com", now, 3600, &config);
    let sig_start = t.rfind('.').expect("token has segments") + 1;
    let bytes = t.as_bytes();
    for pos in sig_start..t.len() {
        // flip the low bit of one signature byte; keep it off the separator
        let flipped = bytes[pos] ^ 0x01;
        if flipped == b'.' {
            continue;
        }
        let mut copy = bytes.to_vec();
        copy[pos] = flipped;
        let tampered = String::from_utf8(copy).expect("still ascii");
        let got = verify_token_at(&tampered, now, &config);
        assert!(
            got == Err(TokenError::InvalidSignature) || got == Err(TokenError::Malformed),
            "tampered token accepted at byte {}",
            pos
        );
        assert!(got.is_err());
    }
    // a clean flip inside the base64 alphabet is a signature failure, never a parse failure
    let mut copy = bytes.to_vec();
    let pos = sig_start;
    copy[pos] = if copy[pos] == b'A' { b'B' } else { b'A' };
    let tampered = String::from_utf8(copy).expect("still ascii");
    assert_eq!(verify_token_at(&tampered, now, &config), Err(TokenError::InvalidSignature));
}

#[test]
fn malformed_tokens_are_classified_malformed() {
    let config = test_config(3600);
    let now: i64 = 0;
    for bad in [
        "",
        "abc",
        "a.b",
        "a.b.c.d",
        "!!!.???.###",
        "eyJhbGciOiJIUzI1NiIsInR5cCI6IkpXVCJ9.bm90anNvbg.sig",
    ] {
        assert_eq!(verify_token_at(bad, now, &config), Err(TokenError::Malformed), "{bad:?}");
    }
}

#[test]
fn wrong_secret_is_signature_failure() {
    let config = test_config(3600);
    let mut other = test_config(3600);
    other.jwt_secret = "a-different-secret".to_string();
    let t = create_token_at("user-1", "a@b.com", 10, 3600, &config);
    assert_eq!(verify_token_at(&t, 10, &other), Err(TokenError::InvalidSignature));
}

#[test]
fn clock_based_issue_and_verify() {
    let config = test_config(3600);
    let t = create_token("user-9", "z@y.org", &config).expect("issues");
    let claims = verify_token(&t, &config).expect("fresh token verifies");
    assert_eq!(claims.sub, "user-9");
    assert_eq!(claims.email, "z@y.org");
    assert_eq!(claims.exp - claims.iat, 3600);
}

#[test]
fn non_positive_ttl_is_config_error() {
    let config = test_config(0);
    assert_eq!(create_token("u", "e@f.g", &config), Err(TokenError::Config));
    let config = test_config(-5);
    assert_eq!(create_token("u", "e@f.g", &config), Err(TokenError::Config));
}

#[test]
fn token_matches_outside_jwt_crypto() {
    // the signed part checks out under jsonwebtoken's own verifier
    let config = test_config(3600);
    let t = create_token_at("user-1", "a@b.com", 77, 3600, &config);
    let dot2 = t.rfind('.').unwrap();
    let (msg, sig) = (&t[..dot2], &t[dot2 + 1..]);
    let key = jsonwebtoken::DecodingKey::from_secret(config.jwt_secret.as_bytes());
    let ok = jsonwebtoken::crypto::verify(sig, msg.as_bytes(), &key, jsonwebtoken::Algorithm::HS256)
        .expect("verifier runs");
    assert!(ok);
    // and the header segment is the canonical HS256 header
    let header = t.split('.').next().unwrap();
    let expected =
        base64::engine::general_purpose::URL_SAFE_NO_PAD.encode("{\"alg\":\"HS256\",\"typ\":\"JWT\"}");
    assert_eq!(header, expected);
}

#[test]
fn externally_built_token_verifies() {
    // a token assembled without the library, from raw JSON, the base64
    // crate and jsonwebtoken's signer, is accepted and read back exactly
    let config = test_config(3600);
    let e = &base64::engine::general_purpose::URL_SAFE_NO_PAD;
    let header = e.encode("{\"alg\":\"HS256\",\"typ\":\"JWT\"}");
    let claims = e.encode("{\"sub\":\"ext-1\",\"email\":\"x@y.z\",\"exp\":2000,\"iat\":1000}");
    let msg = format!("{header}.{claims}");
    let key = jsonwebtoken::EncodingKey::from_secret(config.jwt_secret.as_bytes());
    let sig =
        jsonwebtoken::crypto::sign(msg.as_bytes(), &key, jsonwebtoken::Algorithm::HS256).unwrap();
    let token = format!("{msg}.{sig}");
    let c = verify_token_at(&token, 1500, &config).expect("externally built token verifies");
    assert_eq!(c.sub, "ext-1");
    assert_eq!(c.email, "x@y.z");
    assert_eq!(c.exp, 2000);
    assert_eq!(c.iat, 1000);
    assert_eq!(verify_token_at(&token, 2001, &config), Err(TokenError::Expired));
}

#[test]
fn claims_constructor_respects_config() {
    let config = test_config(3600);
    let c = auth_core::claims::Claims::new("s".to_string(), "e".to_string(), &config)
        .expect("positive ttl yields claims");
    assert_eq!(c.sub, "s");
    assert_eq!(c.email, "e");
    assert_eq!(c.exp - c.iat, 3600);
    assert!(c.iat >= 0);
    let bad = test_config(0);
    assert!(auth_core::claims::Claims::new("s".to_string(), "e".to_string(), &bad).is_none());
}
