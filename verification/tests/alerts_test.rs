use std::time::{Duration, Instant};

use apprunner::alerts::{check_runtime_alerts, format_alert, format_duration, RuntimeAlert};
use apprunner::app::refresh_alerts;
use apprunner::db::models::AppConfig;
use apprunner::process::ProcessState;

fn make_running_state(elapsed_secs: u64) -> ProcessState {
    ProcessState::Running {
        pid: 1234,
        started_at: Instant::now() - Duration::from_secs(elapsed_secs),
    }
}

fn make_app(id: i64, name: &str, max_runtime_secs: Option<i64>) -> AppConfig {
    AppConfig {
        id,
        name: name.to_string(),
        working_dir: "/tmp".to_string(),
        command: "echo hi".to_string(),
        env_vars: "{}".to_string(),
        auto_start: false,
        max_runtime_secs,
        interval_seconds: None,
        template_vars: vec![],
        created_at: "2024-01-01".to_string(),
    }
}

#[test]
fn test_no_running_apps_returns_empty() {
    let apps = vec![make_app(1, "app1", None)];
    let states: Vec<(i64, &ProcessState)> = vec![];
    let alerts = check_runtime_alerts(&apps, &states, 18000);
    assert!(alerts.is_empty());
}

#[test]
fn test_running_app_under_threshold_returns_empty() {
    let apps = vec![make_app(1, "app1", Some(300))];
    let state = make_running_state(100);
    let states: Vec<(i64, &ProcessState)> = vec![(1, &state)];
    let alerts = check_runtime_alerts(&apps, &states, 18000);
    assert!(alerts.is_empty());
}

#[test]
fn test_running_app_over_global_threshold_returns_alert() {
    let apps = vec![make_app(1, "app1", None)];
    let state = make_running_state(20000);
    let states: Vec<(i64, &ProcessState)> = vec![(1, &state)];
    let alerts = check_runtime_alerts(&apps, &states, 18000);
    assert_eq!(alerts.len(), 1);
    assert_eq!(alerts[0].app_id, 1);
    assert_eq!(alerts[0].app_name, "app1");
    assert!(alerts[0].exceeded_by.as_secs() >= 1999);
}

#[test]
fn test_per_app_threshold_takes_precedence_over_global() {
    let apps = vec![make_app(1, "app1", Some(60))];
    let state = make_running_state(100);
    let states: Vec<(i64, &ProcessState)> = vec![(1, &state)];
    let alerts = check_runtime_alerts(&apps, &states, 18000);
    assert_eq!(alerts.len(), 1);
    assert_eq!(alerts[0].app_id, 1);
    assert!(alerts[0].exceeded_by.as_secs() >= 39);
}

#[test]
fn test_stopped_app_produces_no_alert() {
    let apps = vec![make_app(1, "app1", Some(60))];
    let state = ProcessState::Stopped;
    let states: Vec<(i64, &ProcessState)> = vec![(1, &state)];
    let alerts = check_runtime_alerts(&apps, &states, 18000);
    assert!(alerts.is_empty());
}

#[test]
fn test_crashed_app_produces_no_alert() {
    let apps = vec![make_app(1, "app1", Some(60))];
    let state = ProcessState::Crashed { retries: 3, last_error: "fail".to_string() };
    let states: Vec<(i64, &ProcessState)> = vec![(1, &state)];
    let alerts = check_runtime_alerts(&apps, &states, 18000);
    assert!(alerts.is_empty());
}

#[test]
fn test_format_duration_seconds() {
    assert_eq!(format_duration(Duration::from_secs(30)), "30s");
    assert_eq!(format_duration(Duration::from_secs(0)), "0s");
    assert_eq!(format_duration(Duration::from_secs(59)), "59s");
}

#[test]
fn test_format_duration_minutes() {
    assert_eq!(format_duration(Duration::from_secs(60)), "1m");
    assert_eq!(format_duration(Duration::from_secs(90)), "1m");
    assert_eq!(format_duration(Duration::from_secs(3599)), "59m");
}

#[test]
fn test_format_duration_hours() {
    assert_eq!(format_duration(Duration::from_secs(3600)), "1h");
    assert_eq!(format_duration(Duration::from_secs(3661)), "1h 1m");
    assert_eq!(format_duration(Duration::from_secs(7200)), "2h");
    assert_eq!(format_duration(Duration::from_secs(7260)), "2h 1m");
}

#[test]
fn test_format_alert_produces_expected_string() {
    let alert = RuntimeAlert {
        app_id: 1,
        app_name: "my-server".to_string(),
        exceeded_by: Duration::from_secs(300),
    };
    let result = format_alert(&alert);
    assert_eq!(result, "\u{23f1} my-server: running 5m over limit");
}

#[test]
fn test_no_alerts_when_under_threshold() {
    let app = make_app(1, "ok-app", Some(300));
    let running_state = make_running_state(10);
    let alerts = check_runtime_alerts(&[app], &[(1, &running_state)], 18000);
    assert!(alerts.is_empty());
}

// Further cases.

#[test]
fn first_state_of_an_app_counts() {
    let apps = vec![make_app(7, "dup", Some(1))];
    let stopped = ProcessState::Stopped;
    let running = make_running_state(100);
    let alerts = check_runtime_alerts(&apps, &[(7, &stopped), (7, &running)], 18000);
    assert!(alerts.is_empty());
}

#[test]
fn format_duration_sub_second_and_long() {
    assert_eq!(format_duration(Duration::from_millis(999)), "0s");
    assert_eq!(format_duration(Duration::from_secs(90061)), "25h 1m");
}

fn alert(id: i64, name: &str, secs: u64) -> RuntimeAlert {
    RuntimeAlert { app_id: id, app_name: name.to_string(), exceeded_by: Duration::from_secs(secs) }
}

#[test]
fn refresh_alerts_replaces_runtime_alerts() {
    let mut alerts = vec![
        "Failed to start x".to_string(),
        "\u{23f1} old: running 1m over limit".to_string(),
    ];
    let ids = refresh_alerts(&mut alerts, &vec![alert(3, "web", 120), alert(4, "web", 130)]);
    assert_eq!(ids, vec![3, 4]);
    // Both runtime alerts render the same text, which is listed once.
    assert_eq!(
        alerts,
        vec![
            "Failed to start x".to_string(),
            "\u{23f1} web: running 2m over limit".to_string(),
        ]
    );
}

#[test]
fn refresh_alerts_keeps_last_ten() {
    let mut alerts: Vec<String> = (0..12).map(|i| format!("alert {}", i)).collect();
    let ids = refresh_alerts(&mut alerts, &vec![]);
    assert!(ids.is_empty());
    assert_eq!(alerts.len(), 10);
    assert_eq!(alerts[0], "alert 2");
    assert_eq!(alerts[9], "alert 11");
}

#[test]
fn test_runtime_alerts_integration() {
    let id = 1;
    let app = AppConfig {
        id,
        name: "short-lived-app".to_string(),
        working_dir: "/tmp".to_string(),
        command: "sleep 100".to_string(),
        env_vars: "{}".to_string(),
        auto_start: false,
        max_runtime_secs: Some(1),
        interval_seconds: None,
        template_vars: vec![],
        created_at: "2024-01-01".to_string(),
    };
    let running_state = make_running_state(5);
    let apps = vec![app];
    let process_states: Vec<(i64, &ProcessState)> = vec![(id, &running_state)];

    let alerts = check_runtime_alerts(&apps, &process_states, 18000);
    assert_eq!(alerts.len(), 1);
    assert_eq!(alerts[0].app_name, "short-lived-app");
    assert_eq!(alerts[0].app_id, id);
    assert!(alerts[0].exceeded_by.as_secs() >= 3);
}

#[test]
fn current_runtime_alerts_survive_many_other_alerts() {
    let mut alerts: Vec<String> = (0..15).map(|i| format!("alert {}", i)).collect();
    refresh_alerts(&mut alerts, &vec![alert(1, "api", 120), alert(2, "db", 3600)]);
    assert_eq!(alerts.len(), 10);
    assert!(alerts.contains(&"\u{23f1} api: running 2m over limit".to_string()));
    assert!(alerts.contains(&"\u{23f1} db: running 1h over limit".to_string()));
}
