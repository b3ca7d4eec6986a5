use std::collections::HashMap;

use apprunner::mask::proxy::{sanitize_error, upstream_error_message, upstream_url, MaskConfig};

#[test]
fn test_sanitize_error() {
    let mut headers = HashMap::new();
    headers.insert("Authorization".to_string(), "Bearer sk-secret-key".to_string());

    let config = MaskConfig {
        name: "test".to_string(),
        target_url: "https://api.example.com".to_string(),
        listen_port: 8080,
        headers,
    };

    let error = "connection failed with Bearer sk-secret-key in header";
    let sanitized = sanitize_error(error, &config);
    assert!(!sanitized.contains("sk-secret-key"));
    assert!(sanitized.contains("[REDACTED]"));
}

#[test]
fn test_mask_config_creation() {
    let mut headers = HashMap::new();
    headers.insert("Authorization".to_string(), "Bearer test".to_string());

    let config = MaskConfig {
        name: "openai".to_string(),
        target_url: "https://api.openai.com".to_string(),
        listen_port: 8080,
        headers,
    };

    assert_eq!(config.name, "openai");
    assert_eq!(config.listen_port, 8080);
}

// Further cases.

#[test]
fn sanitize_error_exact_text() {
    let mut headers = HashMap::new();
    headers.insert("X-Key".to_string(), "abc".to_string());
    let config = MaskConfig {
        name: "m".to_string(),
        target_url: "http://x".to_string(),
        listen_port: 1,
        headers,
    };
    assert_eq!(sanitize_error("abc/abc!", &config), "[REDACTED]/[REDACTED]!");
    assert_eq!(sanitize_error("nothing here", &config), "nothing here");
}

#[test]
fn upstream_url_joins_target_and_path() {
    assert_eq!(upstream_url("https://api.example.com/", "/v1/x?y=1"), "https://api.example.com/v1/x?y=1");
    assert_eq!(upstream_url("https://api.example.com///", "/"), "https://api.example.com/");
    assert_eq!(upstream_url("http://h", "/p"), "http://h/p");
}

#[test]
fn upstream_error_message_redacts() {
    let mut headers = HashMap::new();
    headers.insert("Authorization".to_string(), "tok".to_string());
    let config = MaskConfig {
        name: "m".to_string(),
        target_url: "http://x".to_string(),
        listen_port: 1,
        headers,
    };
    assert_eq!(upstream_error_message("bad tok", &config), "upstream error: bad [REDACTED]");
}

#[test]
fn an_error_without_header_values_is_unchanged() {
    let mut headers = HashMap::new();
    headers.insert("Authorization".to_string(), "Bearer secret".to_string());
    let config = MaskConfig {
        name: "m".to_string(),
        target_url: "http://localhost:1".to_string(),
        listen_port: 8080,
        headers,
    };
    assert_eq!(sanitize_error("connection refused", &config), "connection refused");
}

fn config_with(values: &[(&str, &str)]) -> MaskConfig {
    let mut headers = HashMap::new();
    for (k, v) in values {
        headers.insert(k.to_string(), v.to_string());
    }
    MaskConfig { name: "m".to_string(), target_url: "http://x".to_string(), listen_port: 1, headers }
}

#[test]
fn a_value_inside_the_marker_never_shows() {
    let config = config_with(&[("X-Key", "RED")]);
    let r = sanitize_error("RED", &config);
    assert!(!r.contains("RED"));
    assert_eq!(r, "");
}

#[test]
fn an_empty_value_redacts_nothing() {
    let config = config_with(&[("X-Empty", ""), ("X-Key", "tok")]);
    assert_eq!(sanitize_error("bad tok", &config), "bad [REDACTED]");
}

#[test]
fn upstream_message_never_shows_a_value() {
    let config = config_with(&[("X-Key", "error")]);
    let m = upstream_error_message("connection error", &config);
    assert!(!m.contains("error"));
    assert_eq!(m, "connection [REDACTED]");
}
