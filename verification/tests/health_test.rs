use std::io::Write;

use apprunner::process::health::{check_app_health, command_binary, HealthError};
use tempfile::NamedTempFile;

#[test]
fn test_valid_config() {
    let result = check_app_health("/tmp", "echo hello", r#"{"PORT": "3000"}"#);
    assert!(result.is_healthy);
    assert!(result.errors.is_empty());
}

#[test]
fn test_valid_config_empty_env() {
    let result = check_app_health("/tmp", "echo hello", "");
    assert!(result.is_healthy);
    assert!(result.errors.is_empty());
}

#[test]
fn test_nonexistent_directory() {
    let result = check_app_health("/nonexistent/path/xyz123", "echo", "{}");
    assert!(!result.is_healthy);
    assert!(result
        .errors
        .contains(&HealthError::DirNotFound("/nonexistent/path/xyz123".to_string())));
}

#[test]
fn test_path_is_file_not_directory() {
    let mut tmp = NamedTempFile::new().expect("failed to create temp file");
    tmp.write_all(b"hello\n").unwrap();
    let path = tmp.path().to_str().unwrap().to_string();

    let result = check_app_health(&path, "echo", "{}");
    assert!(!result.is_healthy);
    assert!(result.errors.contains(&HealthError::DirNotDirectory(path)));
}

#[test]
fn test_invalid_command() {
    let result = check_app_health("/tmp", "nonexistent_binary_xyz123", "{}");
    assert!(!result.is_healthy);
    assert!(result
        .errors
        .contains(&HealthError::CommandNotFound("nonexistent_binary_xyz123".to_string())));
}

#[test]
fn test_empty_command() {
    let result = check_app_health("/tmp", "", "{}");
    assert!(!result.is_healthy);
    assert!(result.errors.contains(&HealthError::EmptyCommand));
}

#[test]
fn test_whitespace_only_command() {
    let result = check_app_health("/tmp", "   ", "{}");
    assert!(!result.is_healthy);
    assert!(result.errors.contains(&HealthError::EmptyCommand));
}

#[test]
fn test_malformed_json_env_vars() {
    let result = check_app_health("/tmp", "echo", "not json at all");
    assert!(!result.is_healthy);
    assert_eq!(result.errors.len(), 1);
    match &result.errors[0] {
        HealthError::InvalidEnvVars(_) => {}
        other => panic!("expected InvalidEnvVars, got {:?}", other),
    }
}

#[test]
fn test_valid_json_env_vars() {
    let result = check_app_health("/tmp", "echo", r#"{"PORT": "3000"}"#);
    assert!(result.is_healthy);
    assert!(result.errors.is_empty());
}

#[test]
fn test_json_not_object_string() {
    let result = check_app_health("/tmp", "echo", r#""hello""#);
    assert!(!result.is_healthy);
    assert!(result
        .errors
        .contains(&HealthError::InvalidEnvVars("env vars must be a JSON object".to_string())));
}

#[test]
fn test_json_not_object_array() {
    let result = check_app_health("/tmp", "echo", "[1,2,3]");
    assert!(!result.is_healthy);
    assert!(result
        .errors
        .contains(&HealthError::InvalidEnvVars("env vars must be a JSON object".to_string())));
}

#[test]
fn test_multiple_errors() {
    let result = check_app_health(
        "/nonexistent/path/xyz123",
        "nonexistent_binary_xyz123",
        "not valid json",
    );
    assert!(!result.is_healthy);
    assert_eq!(result.errors.len(), 3);

    assert!(result
        .errors
        .contains(&HealthError::DirNotFound("/nonexistent/path/xyz123".to_string())));
    assert!(result
        .errors
        .contains(&HealthError::CommandNotFound("nonexistent_binary_xyz123".to_string())));
    assert!(result.errors.iter().any(|e| matches!(e, HealthError::InvalidEnvVars(_))));
}

// Further cases.

#[test]
fn health_error_messages() {
    assert_eq!(
        HealthError::DirNotFound("/x".to_string()).message(),
        "Working directory not found: /x"
    );
    assert_eq!(
        HealthError::DirNotDirectory("/f".to_string()).message(),
        "Path exists but is not a directory: /f"
    );
    assert_eq!(
        HealthError::CommandNotFound("zz".to_string()).message(),
        "Command not found in PATH: zz"
    );
    assert_eq!(
        HealthError::InvalidEnvVars("bad".to_string()).message(),
        "Invalid environment variables: bad"
    );
    assert_eq!(HealthError::EmptyCommand.message(), "Command is empty");
}

#[test]
fn command_binary_is_first_word() {
    assert_eq!(command_binary("  cargo   run --release"), "cargo");
    assert_eq!(command_binary("echo"), "echo");
}

#[test]
fn errors_come_in_check_order() {
    let result = check_app_health("/nonexistent/path/xyz123", "", "[]");
    assert_eq!(
        result.errors,
        vec![
            HealthError::DirNotFound("/nonexistent/path/xyz123".to_string()),
            HealthError::EmptyCommand,
            HealthError::InvalidEnvVars("env vars must be a JSON object".to_string()),
        ]
    );
}

#[test]
fn test_db_health_check_integration() {
    let health = check_app_health("/nonexistent/path/xyz123", "echo hi", "{}");
    assert!(!health.is_healthy);
    assert!(!health.errors.is_empty());

    let health = check_app_health("/tmp", "echo hello", r#"{"PORT": "3000"}"#);
    assert!(health.is_healthy);
    assert!(health.errors.is_empty());
}
