use syla::health_monitor::{
    classify_outcome, HealthCheck, HealthMonitor, HealthStatus, MonitorError,
};

fn check(endpoint: &str) -> HealthCheck {
    HealthCheck {
        endpoint: endpoint.to_string(),
        interval_ms: 10_000,
        timeout_ms: 1_000,
        retries: 3,
    }
}

#[test]
fn classification_by_status_code() {
    match classify_outcome(&Ok(503)) {
        HealthStatus::Unhealthy(msg) => assert_eq!(msg, "Server error: 503"),
        other => panic!("503 must be unhealthy, got {:?}", other),
    }
    match classify_outcome(&Ok(404)) {
        HealthStatus::Degraded(msg) => assert_eq!(msg, "Status: 404"),
        other => panic!("404 must be degraded, got {:?}", other),
    }
    assert!(matches!(classify_outcome(&Ok(200)), HealthStatus::Healthy));
    assert!(matches!(classify_outcome(&Ok(299)), HealthStatus::Healthy));
    match classify_outcome(&Err("connection refused".to_string())) {
        HealthStatus::Unhealthy(msg) => assert_eq!(msg, "Connection error: connection refused"),
        other => panic!("a transport failure must be unhealthy, got {:?}", other),
    }
}

#[test]
fn recorded_results_and_failure_counter() {
    let mut m = HealthMonitor::new();
    m.add_check("svc".to_string(), check("http://127.0.0.1:9/health"));

    let fresh = m.get_status("svc").unwrap();
    assert!(matches!(fresh.status, HealthStatus::Unknown));
    assert_eq!(fresh.consecutive_failures, 0);
    assert!(fresh.last_check.is_none());

    let st = m.apply_check_result("svc", &Ok(503), 12, 1_000);
    assert!(matches!(st, HealthStatus::Unhealthy(_)));
    let h = m.get_status("svc").unwrap();
    assert_eq!(h.consecutive_failures, 1);
    assert_eq!(h.last_check, Some(1_000));
    assert_eq!(h.response_time_ms, Some(12));

    let st2 = m.apply_check_result("svc", &Ok(404), 9, 2_000);
    assert!(matches!(st2, HealthStatus::Degraded(_)));
    assert_eq!(m.get_status("svc").unwrap().consecutive_failures, 2);

    // a healthy probe resets the counter to zero
    let st3 = m.apply_check_result("svc", &Ok(200), 5, 3_000);
    assert!(matches!(st3, HealthStatus::Healthy));
    let h3 = m.get_status("svc").unwrap();
    assert_eq!(h3.consecutive_failures, 0);
    assert_eq!(h3.uptime_ms, Some(0));
}

#[test]
fn perform_check_fails_only_for_unknown_names() {
    let mut m = HealthMonitor::new();
    let missing = m.perform_check("ghost", 0);
    assert!(matches!(missing, Err(MonitorError::NotFound(_))));
}

#[test]
fn unhealthy_services_are_neither_healthy_nor_unknown() {
    let mut m = HealthMonitor::new();
    m.add_check("a".to_string(), check("http://127.0.0.1:9/a"));
    m.add_check("b".to_string(), check("http://127.0.0.1:9/b"));
    m.add_check("c".to_string(), check("http://127.0.0.1:9/c"));
    m.add_check("d".to_string(), check("http://127.0.0.1:9/d"));

    m.apply_check_result("a", &Ok(200), 1, 10);
    m.apply_check_result("b", &Ok(500), 1, 10);
    m.apply_check_result("c", &Ok(404), 1, 10);
    // d is never probed: it stays Unknown

    assert!(m.is_healthy("a"));
    assert!(!m.is_healthy("b"));
    assert!(!m.is_healthy("ghost"));
    assert_eq!(m.get_unhealthy_services(), vec!["b".to_string(), "c".to_string()]);
    assert_eq!(m.get_all_status().len(), 4);
}

#[test]
fn add_check_replaces_and_resets() {
    let mut m = HealthMonitor::new();
    m.add_check("svc".to_string(), check("http://127.0.0.1:9/old"));
    m.apply_check_result("svc", &Ok(500), 1, 10);
    assert_eq!(m.get_status("svc").unwrap().consecutive_failures, 1);

    m.add_check("svc".to_string(), check("http://127.0.0.1:9/new"));
    let h = m.get_status("svc").unwrap();
    assert!(matches!(h.status, HealthStatus::Unknown));
    assert_eq!(h.consecutive_failures, 0);
    assert_eq!(m.checks.len(), 1);
    assert_eq!(m.checks[0].1.endpoint, "http://127.0.0.1:9/new");
}

#[test]
fn apply_for_unknown_name_classifies_without_recording() {
    let mut m = HealthMonitor::new();
    let st = m.apply_check_result("ghost", &Ok(200), 1, 10);
    assert!(matches!(st, HealthStatus::Healthy));
    assert!(m.get_all_status().is_empty());
}
