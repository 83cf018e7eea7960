use auth_core::config::Config;
use auth_core::errors::GateError;
use auth_core::gate::{authorize, authorize_at};
use auth_core::token::create_token_at;

fn test_config() -> Config {
    Config {
        host: "127.0.0.1".to_string(),
        port: 8000,
        database_url: String::new(),
        jwt_secret: "gate-test-secret".to_string(),
        jwt_expiration: 3600,
        app_env: "development".to_string(),
    }
}

#[test]
fn missing_header_is_rejected() {
    let config = test_config();
    let got = authorize_at(None, 0, &config);
    match got {
        Err(e) => {
            assert_eq!(e, GateError::MissingHeader);
            assert_eq!(e.client_message(), "Missing authorization header");
        },
        Ok(_) => panic!("a request without a header was accepted"),
    }
}

#[test]
fn basic_scheme_is_rejected() {
    let config = test_config();
    let header = "Basic xyz".to_string();
    let got = authorize_at(Some(&header), 0, &config);
    match got {
        Err(e) => {
            assert_eq!(e, GateError::BadScheme);
            assert_eq!(e.client_message(), "Invalid authorization header format");
        },
        Ok(_) => panic!("a non-bearer header was accepted"),
    }
}

#[test]
fn valid_bearer_token_passes_with_principal() {
    let config = test_config();
    let now: i64 = 1_000_000;
    let t = create_token_at("user-42", "who@where.net", now, 3600, &config);
    let header = format!("Bearer {t}");
    let p = authorize_at(Some(&header), now, &config).expect("valid token is accepted");
    assert_eq!(p.subject, "user-42");
    assert_eq!(p.email, "who@where.net");
}

#[test]
fn token_failures_share_one_client_message() {
    let config = test_config();
    let now: i64 = 50;
    // malformed
    let h1 = "Bearer garbage".to_string();
    let e1 = authorize_at(Some(&h1), now, &config).expect_err("malformed rejected");
    assert_eq!(e1, GateError::Malformed);
    // tampered signature
    let t = create_token_at("u", "e@f.g", now, 3600, &config);
    let mut tampered = t.clone();
    let last = tampered.pop().unwrap();
    tampered.push(if last == 'A' { 'B' } else { 'A' });
    let h2 = format!("Bearer {tampered}");
    let e2 = authorize_at(Some(&h2), now, &config).expect_err("tampered rejected");
    assert_eq!(e2, GateError::InvalidSignature);
    // expired
    let old = create_token_at("u", "e@f.g", 10, 1, &config);
    let h3 = format!("Bearer {old}");
    let e3 = authorize_at(Some(&h3), now, &config).expect_err("expired rejected");
    assert_eq!(e3, GateError::Expired);
    // one uniform message for all three
    assert_eq!(e1.client_message(), "Invalid or expired token");
    assert_eq!(e1.client_message(), e2.client_message());
    assert_eq!(e2.client_message(), e3.client_message());
}

#[test]
fn clock_based_gate_accepts_fresh_token() {
    let config = test_config();
    let t = auth_core::token::create_token("subject-7", "m@n.o", &config).expect("issues");
    let header = format!("Bearer {t}");
    let p = authorize(Some(&header), &config).expect("fresh token passes");
    assert_eq!(p.subject, "subject-7");
}

#[test]
fn bearer_prefix_must_match_exactly() {
    let config = test_config();
    let now: i64 = 5;
    let t = create_token_at("u", "e@f.g", now, 60, &config);
    for h in [format!("bearer {t}"), format!("Bearer{t}"), format!("BEARER {t}")] {
        let got = authorize_at(Some(&h), now, &config);
        assert_eq!(got.expect_err("wrong scheme rejected"), GateError::BadScheme);
    }
}
