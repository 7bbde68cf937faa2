use std::cell::RefCell;

use syla::config::{Config, RepoManifest, RepositoryConfig};
use syla::health_monitor::HealthStatus;
use syla::process_manager::{
    ProcessConfig, ProcessManager, ProcessState, RestartPolicy, SupervisorError,
};

fn create_test_config() -> Config {
    let repo = RepositoryConfig {
        url: "https://github.com/test/service.git".to_string(),
        path: "test/service".to_string(),
        branch: "main".to_string(),
        language: "rust".to_string(),
        health_check: None,
        ports: Vec::new(),
        depends_on: Vec::new(),
        repo_type: None,
        platform: None,
        description: None,
    };
    Config {
        workspace_root: "/tmp/workspace".to_string(),
        manifest: RepoManifest {
            repositories: vec![("test.service".to_string(), repo)],
            infrastructure: Vec::new(),
        },
    }
}

fn test_process_config(name: &str, command: &str) -> ProcessConfig {
    ProcessConfig {
        name: name.to_string(),
        command: command.to_string(),
        args: Vec::new(),
        working_dir: "/tmp/workspace".to_string(),
        env: Vec::new(),
        health_check_url: None,
        health_check_interval_ms: 10_000,
        startup_timeout_ms: 30_000,
        restart_policy: RestartPolicy::Never,
        log_file: None,
    }
}

fn failing_spawner(_c: ProcessConfig) -> Result<u64, String> {
    Err("No such file or directory (os error 2)".to_string())
}

fn noop_stopper(_h: u64, _force: bool) {}

#[test]
fn test_process_manager_creation() {
    let config = create_test_config();
    let _pm = ProcessManager::new(config);
    // If we get here without panic, the test passes
}

#[test]
fn test_start_nonexistent_service() {
    let config = create_test_config();
    let mut pm = ProcessManager::new(config);

    let process_config = test_process_config("test-service", "/nonexistent/binary");

    let result = pm.start_service(process_config, 0, failing_spawner);
    assert!(result.is_err());
}

#[test]
fn test_stop_nonexistent_service() {
    let config = create_test_config();
    let mut pm = ProcessManager::new(config);

    // Stopping a non-existent service should not error
    let result = pm.stop_service("nonexistent", false, noop_stopper);
    assert!(result.is_ok());
}

#[test]
fn start_on_running_service_spawns_nothing_and_succeeds() {
    let mut pm = ProcessManager::new(create_test_config());
    let spawn_count = RefCell::new(0u32);
    let spawner = |_c: ProcessConfig| -> Result<u64, String> {
        *spawn_count.borrow_mut() += 1;
        Ok(7)
    };

    let first = pm.start_service(test_process_config("svc", "/bin/true"), 1000, &spawner);
    assert!(first.is_ok());
    assert_eq!(*spawn_count.borrow(), 1);

    let second = pm.start_service(test_process_config("svc", "/bin/true"), 2000, &spawner);
    assert!(second.is_ok());
    assert_eq!(*spawn_count.borrow(), 1, "a running service must not be spawned again");

    let status = pm.get_service_status("svc").unwrap();
    assert!(matches!(status.0, ProcessState::Running));
}

#[test]
fn failed_start_records_failed_state() {
    let mut pm = ProcessManager::new(create_test_config());
    let result = pm.start_service(test_process_config("bad", "/nope"), 0, failing_spawner);
    assert!(matches!(result, Err(SupervisorError::Spawn(_))));
    let status = pm.get_service_status("bad").unwrap();
    assert!(matches!(status.0, ProcessState::Failed(_)));
}

#[test]
fn stop_passes_through_to_stopped_and_is_idempotent() {
    let mut pm = ProcessManager::new(create_test_config());
    let signals = RefCell::new(Vec::new());
    let stopper = |h: u64, force: bool| {
        signals.borrow_mut().push((h, force));
    };
    let ok = pm.start_service(test_process_config("svc", "/bin/true"), 0, |_c| Ok(11));
    assert!(ok.is_ok());

    assert!(pm.stop_service("svc", false, &stopper).is_ok());
    assert_eq!(*signals.borrow(), vec![(11, false)]);
    let status = pm.get_service_status("svc").unwrap();
    assert!(matches!(status.0, ProcessState::Stopped));

    // already stopped: success, and no further signal
    assert!(pm.stop_service("svc", false, &stopper).is_ok());
    assert_eq!(signals.borrow().len(), 1);
}

#[test]
fn restart_increments_counter_exactly_once_per_call() {
    let mut pm = ProcessManager::new(create_test_config());
    assert!(pm.start_service(test_process_config("svc", "/bin/true"), 0, |_c| Ok(1)).is_ok());

    let missing = pm.restart_service("ghost", 10, |_c| Ok(2), noop_stopper);
    assert!(matches!(missing, Err(SupervisorError::NotFound(_))));

    assert!(pm.restart_service("svc", 10, |_c| Ok(2), noop_stopper).is_ok());
    let entries = pm.list_services();
    assert_eq!(entries.len(), 1);
    assert!(matches!(entries[0].1, ProcessState::Running));
    assert_eq!(pm.services[0].restart_count, 1);

    // a restart whose spawn fails still counts once, and ends Failed
    let failed = pm.restart_service("svc", 20, failing_spawner, noop_stopper);
    assert!(failed.is_err());
    assert_eq!(pm.services[0].restart_count, 2);
    assert!(matches!(pm.services[0].state, ProcessState::Failed(_)));
}

#[test]
fn stop_all_stops_every_service() {
    let mut pm = ProcessManager::new(create_test_config());
    assert!(pm.start_service(test_process_config("a", "/bin/true"), 0, |_c| Ok(1)).is_ok());
    assert!(pm.start_service(test_process_config("b", "/bin/true"), 0, |_c| Ok(2)).is_ok());
    assert!(pm.stop_all(noop_stopper).is_ok());
    for (_, state, _) in pm.list_services() {
        assert!(matches!(state, ProcessState::Stopped));
    }
}

#[test]
fn unhealthy_probe_under_on_failure_policy_marks_restarting() {
    let mut pm = ProcessManager::new(create_test_config());
    let mut cfg = test_process_config("svc", "/bin/true");
    cfg.restart_policy = RestartPolicy::OnFailure;
    cfg.health_check_url = Some("http://127.0.0.1:9/health".to_string());
    assert!(pm.start_service(cfg, 0, |_c| Ok(5)).is_ok());
    assert!(pm.should_poll("svc"));

    // a probe that timed out
    pm.apply_health_outcome("svc", &Err("timed out".to_string()), 10_000);

    let (state, health) = pm.get_service_status("svc").unwrap();
    assert!(matches!(state, ProcessState::Restarting));
    assert!(matches!(health, HealthStatus::Unhealthy(_)));
    // no longer running, so the poller must stop
    assert!(!pm.should_poll("svc"));

    // a second mark before the restart happens changes nothing
    pm.apply_health_outcome("svc", &Err("timed out".to_string()), 20_000);
    let (state2, _) = pm.get_service_status("svc").unwrap();
    assert!(matches!(state2, ProcessState::Restarting));

    // the restart path then brings it back up, counting once
    assert!(pm.restart_service("svc", 30_000, |_c| Ok(6), noop_stopper).is_ok());
    let (state3, _) = pm.get_service_status("svc").unwrap();
    assert!(matches!(state3, ProcessState::Running));
    assert_eq!(pm.services[0].restart_count, 1);
}

#[test]
fn unhealthy_probe_under_never_policy_keeps_running() {
    let mut pm = ProcessManager::new(create_test_config());
    let mut cfg = test_process_config("svc", "/bin/true");
    cfg.restart_policy = RestartPolicy::Never;
    cfg.health_check_url = Some("http://127.0.0.1:9/health".to_string());
    assert!(pm.start_service(cfg, 0, |_c| Ok(5)).is_ok());

    pm.apply_health_outcome("svc", &Ok(500), 10_000);
    let (state, health) = pm.get_service_status("svc").unwrap();
    assert!(matches!(state, ProcessState::Running));
    match health {
        HealthStatus::Unhealthy(msg) => {
            assert_eq!(msg, "Health check failed with status: 500");
        },
        other => panic!("expected unhealthy, got {:?}", other),
    }
}

#[test]
fn healthy_probe_records_healthy() {
    let mut pm = ProcessManager::new(create_test_config());
    let mut cfg = test_process_config("svc", "/bin/true");
    cfg.health_check_url = Some("http://127.0.0.1:9/health".to_string());
    assert!(pm.start_service(cfg, 0, |_c| Ok(5)).is_ok());
    pm.apply_health_outcome("svc", &Ok(204), 10_000);
    let (state, health) = pm.get_service_status("svc").unwrap();
    assert!(matches!(state, ProcessState::Running));
    assert!(matches!(health, HealthStatus::Healthy));
    assert_eq!(pm.services[0].last_health_check, Some(10_000));
}

#[test]
fn poll_health_once_records_a_probe_outcome() {
    let mut pm = ProcessManager::new(create_test_config());
    let mut cfg = test_process_config("svc", "/bin/true");
    cfg.restart_policy = RestartPolicy::Never;
    // nothing answers on this port, so the probe fails fast
    cfg.health_check_url = Some("http://127.0.0.1:9/health".to_string());
    assert!(pm.start_service(cfg, 0, |_c| Ok(3)).is_ok());

    pm.poll_health_once("svc", 4_321);
    let (_, health) = pm.get_service_status("svc").unwrap();
    assert!(
        !matches!(health, HealthStatus::Unknown),
        "one poll must record some outcome",
    );
    assert_eq!(pm.services[0].last_health_check, Some(4_321));

    // once the service is stopped, polling is a no-op
    assert!(pm.stop_service("svc", false, noop_stopper).is_ok());
    pm.poll_health_once("svc", 9_999);
    assert_eq!(pm.services[0].last_health_check, Some(4_321));
}
