use std::sync::{Arc, Mutex};

use time_manager::commands::{app_status_from, check_usage_event, current_app_status, AppStatus};
use time_manager::db::default_domain_rules;
use time_manager::models::UsageEvent;

fn event(domain: &str, timestamp: &str) -> UsageEvent {
    UsageEvent {
        url: "https://youtube.com/watch?v=abc".to_string(),
        domain: domain.to_string(),
        title: "Video".to_string(),
        browser: "chrome".to_string(),
        event_type: "active".to_string(),
        timestamp: timestamp.to_string(),
    }
}

#[test]
fn reports_ingest_server_startup_error_in_app_status() {
    let ingest_server_error = Arc::new(Mutex::new(Some(
        "failed to bind ingest server on 127.0.0.1:51247".to_string(),
    )));

    let status = current_app_status(&ingest_server_error).unwrap();

    assert_eq!(
        status.ingest_server_error,
        Some("failed to bind ingest server on 127.0.0.1:51247".to_string())
    );
}

#[test]
fn reports_no_error_when_server_started() {
    let slot = Arc::new(Mutex::new(None));
    assert_eq!(
        current_app_status(&slot),
        Ok(AppStatus { ingest_server_error: None })
    );
}

#[test]
fn reports_lock_failure_in_app_status() {
    assert_eq!(app_status_from(None), Err("app status lock failed".to_string()));
    assert_eq!(
        app_status_from(Some(Some("x".to_string()))),
        Ok(AppStatus { ingest_server_error: Some("x".to_string()) })
    );

}

#[test]
fn requires_domain_and_timestamp() {
    assert_eq!(check_usage_event(&event("youtube.com", "2026-05-12T08:00:00Z")), Ok(()));
    let message = Err("domain and timestamp are required".to_string());
    assert_eq!(check_usage_event(&event("", "2026-05-12T08:00:00Z")), message);
    assert_eq!(check_usage_event(&event("youtube.com", "  \t\n")), message);
    assert_eq!(check_usage_event(&event("\u{a0}", "2026-05-12T08:00:00Z")), message);
    assert_eq!(check_usage_event(&event(" youtube.com ", " 1 ")), Ok(()));
}

#[test]
fn seeds_exact_default_domain_rules() {
    assert_eq!(
        default_domain_rules(),
        vec![
            ("chatgpt.com", "productive"),
            ("chat.openai.com", "productive"),
            ("youtube.com", "unproductive"),
            ("instagram.com", "unproductive"),
        ]
    );
}
