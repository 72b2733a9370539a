use d1doctor::config::{Config, DaemonConfig, config_path, db_path};

#[test]
fn test_default_config() {
    let config = Config::default();
    assert!(!config.orchestrator_url.is_empty());
    assert!(config.daemon_port > 0);
}

#[test]
fn config_test_default_config() {
    let cfg = DaemonConfig::default();
    assert_eq!(cfg.daemon.port, 9876);
    assert_eq!(cfg.orchestrator.heartbeat_interval_secs, 30);
    assert_eq!(cfg.permissions.approval_timeout_secs, 300);
}

#[test]
fn test_allow_unauthenticated_local_auto_set() {
    let mut cfg = DaemonConfig::default();
    cfg.orchestrator.url = "ws://localhost:8000/ws/connect".into();
    cfg.apply_auto_rules();
    assert!(cfg.orchestrator.allow_unauthenticated_local);
}

#[test]
fn test_remote_url_stays_authenticated() {
    let mut cfg = DaemonConfig::default();
    cfg.apply_auto_rules();
    assert!(!cfg.orchestrator.allow_unauthenticated_local);
}

#[test]
fn test_expand_path_tilde() {
    let expanded = DaemonConfig::expand_path("~/.d1doctor/db", "/home/user");
    assert!(!expanded.starts_with("~"), "Should have expanded ~ to home dir");
    assert_eq!(expanded, "/home/user/.d1doctor/db");
}

#[test]
fn test_expand_path_absolute_untouched() {
    let expanded = DaemonConfig::expand_path("/var/lib/d1doctor.db", "/home/user");
    assert_eq!(expanded, "/var/lib/d1doctor.db");
}

#[test]
fn test_merge_prefers_non_default_values() {
    let mut base = Config::default();
    let mut other = Config::default();
    other.orchestrator_url = "ws://localhost:8000/ws".to_string();
    other.daemon_port = 9999;
    base.merge(other);
    assert_eq!(base.orchestrator_url, "ws://localhost:8000/ws");
    assert_eq!(base.daemon_port, 9999);
}

#[test]
fn test_merge_keeps_defaults() {
    let mut base = Config::default();
    base.daemon_port = 1234;
    let other = Config::default();
    base.merge(other);
    assert_eq!(base.daemon_port, 1234);
}

#[test]
fn test_missing_file_returns_default() {
    let cfg = DaemonConfig::load(None);
    assert_eq!(cfg.daemon.port, 9876);
}

#[test]
fn config_path_returns_d1doctor_dir() {
    let path = config_path("/home/user");
    assert!(path.contains(".d1doctor"));
    assert!(path.ends_with("config.toml"));
}

#[test]
fn db_path_contains_d1doctor() {
    let path = db_path("/home/user");
    assert!(path.contains(".d1doctor"));
    assert!(path.ends_with("d1doctor.db"));
}
