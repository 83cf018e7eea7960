use auth_core::config::Config;
use auth_core::items::{CreateItem, UpdateItem};

fn base_config() -> Config {
    Config {
        host: "127.0.0.1".to_string(),
        port: 8000,
        database_url: "postgres://localhost/app".to_string(),
        jwt_secret: "secret".to_string(),
        jwt_expiration: 86400,
        app_env: "development".to_string(),
    }
}

#[test]
fn server_address_joins_host_and_port() {
    let c = base_config();
    assert_eq!(c.server_address(), "127.0.0.1:8000");
    let mut c2 = base_config();
    c2.host = "0.0.0.0".to_string();
    c2.port = 65535;
    assert_eq!(c2.server_address(), "0.0.0.0:65535");
}

#[test]
fn production_flag_follows_environment() {
    let mut c = base_config();
    assert!(!c.is_production());
    c.app_env = "production".to_string();
    assert!(c.is_production());
    c.app_env = "Production".to_string();
    assert!(!c.is_production());
}

#[test]
fn create_item_title_bounds() {
    let ok = CreateItem { title: "a".to_string(), description: None };
    assert!(ok.validate());
    let empty = CreateItem { title: String::new(), description: None };
    assert!(!empty.validate());
    let long = CreateItem { title: "x".repeat(255), description: Some("d".to_string()) };
    assert!(long.validate());
    let too_long = CreateItem { title: "x".repeat(256), description: None };
    assert!(!too_long.validate());
}

#[test]
fn update_item_title_optional() {
    let none = UpdateItem { title: None, description: Some("d".to_string()), status: None };
    assert!(none.validate());
    let ok = UpdateItem { title: Some("t".to_string()), description: None, status: None };
    assert!(ok.validate());
    let bad = UpdateItem { title: Some(String::new()), description: None, status: None };
    assert!(!bad.validate());
}
