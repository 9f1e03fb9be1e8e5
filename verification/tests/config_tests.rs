use ghaf_tools::config::{
    default_debounce_ms, default_enable, default_notify_port, default_user_notify_socket,
    validate_unique_base_paths, ChannelConfig, Config, DirChecks, PathKind, ScanningConfig,
    UserNotifyConfig,
};
use ghaf_tools::util::InfectedAction;

fn channel(base: &str, producers: Vec<&str>) -> ChannelConfig {
    ChannelConfig {
        base_path: base.to_string(),
        producers: producers.into_iter().map(String::from).collect(),
        consumers: vec![],
        diode_producers: vec![],
        debounce_ms: 1000,
        scanning: ScanningConfig::default(),
        user_notify: UserNotifyConfig::default(),
        guest_notify: None,
    }
}

#[test]
fn test_unique_base_paths_ok() {
    let mut config = Config::new();
    config.insert("ch1".to_string(), channel("/tmp/ch1", vec!["vm1"]));
    config.insert("ch2".to_string(), channel("/tmp/ch2", vec!["vm1"]));

    assert!(validate_unique_base_paths(&config).is_ok());
}

#[test]
fn test_unique_base_paths_conflict() {
    let mut config = Config::new();
    config.insert("ch1".to_string(), channel("/tmp/shared", vec!["vm1"]));
    config.insert("ch2".to_string(), channel("/tmp/shared", vec!["vm2"]));

    let result = validate_unique_base_paths(&config);
    assert!(result.is_err());
    assert!(result.unwrap_err().contains("conflicting base_path"));
}

fn all_dirs(n_producers: usize) -> DirChecks {
    DirChecks {
        base: PathKind::Dir,
        share: PathKind::Dir,
        export: PathKind::Dir,
        quarantine: PathKind::Dir,
        producer_dirs: vec![PathKind::Dir; n_producers],
    }
}

#[test]
fn validate_accepts_complete_channel() {
    let cfg = channel("/tmp/ok", vec!["vm1", "vm2"]);
    assert!(cfg.validate(&all_dirs(2)).is_ok());
}

#[test]
fn validate_rejects_missing_base() {
    let cfg = channel("/tmp/missing", vec!["vm1"]);
    let mut dirs = all_dirs(1);
    dirs.base = PathKind::Missing;
    let errs = cfg.validate(&dirs).unwrap_err();
    assert!(errs.iter().any(|e| e == "Base path does not exist"));
}

#[test]
fn validate_rejects_missing_producer_dir() {
    let cfg = channel("/tmp/x", vec!["vm1", "vm2"]);
    let mut dirs = all_dirs(2);
    dirs.producer_dirs[1] = PathKind::Missing;
    let errs = cfg.validate(&dirs).unwrap_err();
    assert!(errs.iter().any(|e| e == "'share/vm2' does not exist"));
}

#[test]
fn validate_rejects_no_producers() {
    let cfg = channel("/tmp/x", vec![]);
    let errs = cfg.validate(&all_dirs(0)).unwrap_err();
    assert!(errs.iter().any(|e| e == "Channel has no producers defined"));
}

#[test]
fn validate_rejects_unknown_diode() {
    let mut cfg = channel("/tmp/x", vec!["vm1"]);
    cfg.diode_producers = vec!["ghost".to_string()];
    let errs = cfg.validate(&all_dirs(1)).unwrap_err();
    assert!(errs
        .iter()
        .any(|e| e == "Diode producer 'ghost' is not in producers list"));
}

#[test]
fn validate_requires_export_only_with_consumers() {
    let mut cfg = channel("/tmp/x", vec!["vm1"]);
    let mut dirs = all_dirs(1);
    dirs.export = PathKind::Missing;
    assert!(cfg.validate(&dirs).is_ok());
    cfg.consumers = vec!["vm9".to_string()];
    assert!(cfg.validate(&dirs).is_err());
}

#[test]
fn validate_requires_quarantine_only_when_configured() {
    let mut cfg = channel("/tmp/x", vec!["vm1"]);
    let mut dirs = all_dirs(1);
    dirs.quarantine = PathKind::Missing;
    assert!(cfg.validate(&dirs).is_ok());
    cfg.scanning.infected_action = InfectedAction::Quarantine;
    assert!(cfg.validate(&dirs).is_err());
}

#[test]
fn defaults_match_documentation() {
    assert!(default_enable());
    assert_eq!(default_debounce_ms(), 1000);
    assert_eq!(default_notify_port(), 3401);
    assert_eq!(default_user_notify_socket(), "/run/clamav/notify.sock");
    let scanning = ScanningConfig::default();
    assert!(scanning.enable);
    assert_eq!(scanning.infected_action, InfectedAction::Delete);
    assert!(!scanning.permissive);
    assert!(scanning.ignore_file_patterns.is_empty());
    assert!(scanning.ignore_path_patterns.is_empty());
}

#[test]
fn refresh_marker_added_once() {
    let mut cfg = channel("/tmp/x", vec!["vm1"]);
    cfg.guest_notify = Some(ghaf_tools::config::GuestNotifyConfig {
        guests: vec![3],
        port: 3401,
    });
    cfg.add_refresh_ignore_pattern();
    assert_eq!(cfg.scanning.ignore_file_patterns, vec![".virtiofs-refresh"]);
    cfg.add_refresh_ignore_pattern();
    assert_eq!(cfg.scanning.ignore_file_patterns, vec![".virtiofs-refresh"]);
}

#[test]
fn log_config_info_line_per_departure() {
    let mut cfg = channel("/tmp/x", vec!["vm1"]);
    assert!(cfg.log_config_info("quiet").is_empty());
    cfg.scanning.enable = false;
    cfg.scanning.permissive = true;
    cfg.diode_producers = vec!["vm1".to_string()];
    assert_eq!(cfg.log_config_info("busy").len(), 3);
}

#[test]
fn config_insert_replaces_existing_channel() {
    let mut config = Config::new();
    config.insert("ch".to_string(), channel("/tmp/a", vec!["vm1"]));
    config.insert("ch".to_string(), channel("/tmp/b", vec!["vm2"]));
    assert_eq!(config.len(), 1);
    assert_eq!(config.channels[0].1.base_path, "/tmp/b");
}
