use apprunner::mask::log::{
    days_to_date, format_timestamp, now_timestamp, LogEntry, RequestLog, MAX_LOG_ENTRIES,
};

fn entry(path: &str) -> LogEntry {
    LogEntry {
        timestamp: "2024-01-01 10:00:00".to_string(),
        method: "GET".to_string(),
        path: path.to_string(),
        status_code: Some(200),
        latency_ms: 10,
        error: None,
    }
}

#[test]
fn test_ring_buffer_capacity() {
    let mut log = RequestLog::new();
    for i in 0..60 {
        log.push(LogEntry {
            timestamp: format!("2024-01-01 00:00:{:02}", i % 60),
            method: "GET".to_string(),
            path: format!("/path/{}", i),
            status_code: Some(200),
            latency_ms: 100,
            error: None,
        });
    }

    assert_eq!(log.len(), MAX_LOG_ENTRIES);
    assert_eq!(log.entries().front().unwrap().path, "/path/10");
    assert_eq!(log.entries().back().unwrap().path, "/path/59");
}

#[test]
fn test_empty_log() {
    let log = RequestLog::new();
    assert!(log.is_empty());
    assert_eq!(log.len(), 0);
}

#[test]
fn test_push_and_retrieve() {
    let mut log = RequestLog::new();
    log.push(LogEntry {
        timestamp: "2024-01-01 10:00:00".to_string(),
        method: "POST".to_string(),
        path: "/v1/chat/completions".to_string(),
        status_code: Some(200),
        latency_ms: 1200,
        error: None,
    });

    assert_eq!(log.len(), 1);
    let entry = log.entries().front().unwrap();
    assert_eq!(entry.method, "POST");
    assert_eq!(entry.path, "/v1/chat/completions");
    assert_eq!(entry.status_code, Some(200));
    assert_eq!(entry.latency_ms, 1200);
}

#[test]
fn test_error_entry() {
    let mut log = RequestLog::new();
    log.push(LogEntry {
        timestamp: "2024-01-01 10:00:00".to_string(),
        method: "POST".to_string(),
        path: "/v1/chat/completions".to_string(),
        status_code: None,
        latency_ms: 50,
        error: Some("connection refused".to_string()),
    });

    let entry = log.entries().front().unwrap();
    assert!(entry.status_code.is_none());
    assert_eq!(entry.error.as_deref(), Some("connection refused"));
}

#[test]
fn log_test_clear() {
    let mut log = RequestLog::new();
    log.push(LogEntry {
        timestamp: "2024-01-01 10:00:00".to_string(),
        method: "GET".to_string(),
        path: "/test".to_string(),
        status_code: Some(200),
        latency_ms: 10,
        error: None,
    });

    log.clear();
    assert!(log.is_empty());
}

// Further cases.

#[test]
fn log_keeps_latest_in_order() {
    let mut log = RequestLog::default();
    for i in 0..(MAX_LOG_ENTRIES + 3) {
        log.push(entry(&format!("/{}", i)));
    }
    let paths: Vec<String> = log.entries().iter().map(|e| e.path.clone()).collect();
    let expected: Vec<String> = (3..MAX_LOG_ENTRIES + 3).map(|i| format!("/{}", i)).collect();
    assert_eq!(paths, expected);
}

#[test]
fn days_to_date_known_days() {
    assert_eq!(days_to_date(0), (1970, 1, 1));
    assert_eq!(days_to_date(59), (1970, 3, 1));
    assert_eq!(days_to_date(11016), (2000, 2, 29));
    assert_eq!(days_to_date(19723), (2024, 1, 1));
}

#[test]
fn format_timestamp_pads_fields() {
    assert_eq!(format_timestamp(0), "1970-01-01 00:00:00");
    assert_eq!(format_timestamp(1_704_067_200 + 3661), "2024-01-01 01:01:01");
}

#[test]
fn now_timestamp_has_the_format() {
    let t = now_timestamp();
    assert_eq!(t.len(), 19);
    assert_eq!(&t[4..5], "-");
    assert_eq!(&t[10..11], " ");
    assert_eq!(&t[13..14], ":");
}

#[test]
fn days_to_date_skips_the_leap_day_of_a_common_century() {
    assert_eq!(days_to_date(47540), (2100, 2, 28));
    assert_eq!(days_to_date(47541), (2100, 3, 1));
    assert_eq!(days_to_date(47482), (2100, 1, 1));
}
