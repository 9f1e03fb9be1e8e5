use ghaf_tools::config::{ChannelConfig, ScanningConfig, UserNotifyConfig};
use ghaf_tools::sync::{build_inventory, compute_actions, FileInfo, Inventory, SyncAction};

fn make_test_config(producers: Vec<&str>, consumers: Vec<&str>) -> ChannelConfig {
    ChannelConfig {
        base_path: "/tmp/test".to_string(),
        producers: producers.into_iter().map(String::from).collect(),
        consumers: consumers.into_iter().map(String::from).collect(),
        diode_producers: vec![],
        debounce_ms: 1000,
        scanning: ScanningConfig::default(),
        user_notify: UserNotifyConfig::default(),
        guest_notify: None,
    }
}

fn info(path: &str, mtime: i64, size: u64) -> FileInfo {
    FileInfo {
        path: path.to_string(),
        mtime,
        size,
    }
}

#[test]
fn test_conflict_resolution_picks_latest_mtime() {
    let mut producers = Inventory::new();
    let relative = "file.txt".to_string();

    producers.insert(
        relative.clone(),
        vec![
            ("vm1".to_string(), info("/share/vm1/file.txt", 100, 1000)),
            ("vm2".to_string(), info("/share/vm2/file.txt", 200, 1000)), // Latest
        ],
    );

    let export = Inventory::new();
    let config = make_test_config(vec!["vm1", "vm2"], vec!["consumer"]);

    let actions = compute_actions(&producers, &export, &config);

    assert_eq!(actions.len(), 1);
    match &actions[0] {
        SyncAction::TriggerSync { source, .. } => {
            assert_eq!(source, "vm2"); // Should pick vm2 (latest mtime)
        }
        _ => panic!("Expected TriggerSync"),
    }
}

#[test]
fn test_stale_export_file_deleted() {
    let producers = Inventory::new(); // No producers have this file

    let mut export = Inventory::new();
    export.insert(
        "orphan.txt".to_string(),
        vec![("export".to_string(), info("/export/orphan.txt", 100, 500))],
    );

    let config = make_test_config(vec!["vm1"], vec!["consumer"]);

    let actions = compute_actions(&producers, &export, &config);

    assert_eq!(actions.len(), 1);
    match &actions[0] {
        SyncAction::DeleteStale { relative, .. } => {
            assert_eq!(relative, "orphan.txt");
        }
        _ => panic!("Expected DeleteStale"),
    }
}

#[test]
fn test_file_in_sync_no_action() {
    let mut producers = Inventory::new();
    let relative = "synced.txt".to_string();

    // Same file in both producers with identical metadata
    producers.insert(
        relative.clone(),
        vec![
            ("vm1".to_string(), info("/share/vm1/synced.txt", 100, 1000)),
            ("vm2".to_string(), info("/share/vm2/synced.txt", 100, 1000)),
        ],
    );

    // Same file in export with identical metadata
    let mut export = Inventory::new();
    export.insert(
        relative.clone(),
        vec![("export".to_string(), info("/export/synced.txt", 100, 1000))],
    );

    let config = make_test_config(vec!["vm1", "vm2"], vec!["consumer"]);

    let actions = compute_actions(&producers, &export, &config);

    assert!(actions.is_empty(), "No action needed for synced files");
}

#[test]
fn test_file_missing_from_export() {
    let mut producers = Inventory::new();
    let relative = "new.txt".to_string();

    producers.insert(
        relative.clone(),
        vec![("vm1".to_string(), info("/share/vm1/new.txt", 100, 1000))],
    );

    let export = Inventory::new(); // File not in export

    let config = make_test_config(vec!["vm1"], vec!["consumer"]);

    let actions = compute_actions(&producers, &export, &config);

    assert_eq!(actions.len(), 1);
    assert!(matches!(&actions[0], SyncAction::TriggerSync { .. }));
}

#[test]
fn test_no_export_sync_without_consumers() {
    let mut producers = Inventory::new();
    let relative = "file.txt".to_string();

    // File in both producers, in sync
    producers.insert(
        relative.clone(),
        vec![
            ("vm1".to_string(), info("/share/vm1/file.txt", 100, 1000)),
            ("vm2".to_string(), info("/share/vm2/file.txt", 100, 1000)),
        ],
    );

    let export = Inventory::new();

    // No consumers - export sync not needed
    let config = make_test_config(vec!["vm1", "vm2"], vec![]);

    let actions = compute_actions(&producers, &export, &config);

    assert!(actions.is_empty(), "No export sync without consumers");
}

#[test]
fn test_file_missing_from_some_producers() {
    let mut producers = Inventory::new();
    let relative = "partial.txt".to_string();

    // File only in vm1, not in vm2
    producers.insert(
        relative.clone(),
        vec![("vm1".to_string(), info("/share/vm1/partial.txt", 100, 1000))],
    );

    let export = Inventory::new();

    // Two producers configured
    let config = make_test_config(vec!["vm1", "vm2"], vec!["consumer"]);

    let actions = compute_actions(&producers, &export, &config);

    assert_eq!(actions.len(), 1);
    match &actions[0] {
        SyncAction::TriggerSync { source, .. } => {
            assert_eq!(source, "vm1");
        }
        _ => panic!("Expected TriggerSync"),
    }
}

// A second pass over a quiescent tree computes nothing: once the first
// pass's actions are gone, compute_actions is empty, and empty stays
// empty.
#[test]
fn sync_pass_idempotent_on_quiescent_tree() {
    let mut producers = Inventory::new();
    producers.insert(
        "a.txt".to_string(),
        vec![
            ("vm1".to_string(), info("/share/vm1/a.txt", 7, 3)),
            ("vm2".to_string(), info("/share/vm2/a.txt", 7, 3)),
        ],
    );
    let mut export = Inventory::new();
    export.insert(
        "a.txt".to_string(),
        vec![("export".to_string(), info("/export/a.txt", 7, 3))],
    );
    let config = make_test_config(vec!["vm1", "vm2"], vec!["c"]);

    let first = compute_actions(&producers, &export, &config);
    let second = compute_actions(&producers, &export, &config);
    assert!(first.is_empty());
    assert!(second.is_empty());
}

#[test]
fn build_inventory_groups_by_relative_path() {
    let producer_files = vec![
        (
            "vm1".to_string(),
            "doc.txt".to_string(),
            info("/share/vm1/doc.txt", 5, 10),
        ),
        (
            "vm2".to_string(),
            "doc.txt".to_string(),
            info("/share/vm2/doc.txt", 6, 10),
        ),
        (
            "vm1".to_string(),
            "other.txt".to_string(),
            info("/share/vm1/other.txt", 1, 2),
        ),
    ];
    let export_files = vec![("doc.txt".to_string(), info("/export/doc.txt", 6, 10))];

    let (producers, export) = build_inventory(producer_files, export_files);
    assert_eq!(producers.get("doc.txt").unwrap().len(), 2);
    assert_eq!(producers.get("other.txt").unwrap().len(), 1);
    assert!(producers.get("absent.txt").is_none());
    assert_eq!(export.get("doc.txt").unwrap()[0].0, "export");
}

#[test]
fn inventory_insert_replaces_slot() {
    let mut inv = Inventory::new();
    inv.insert("f".to_string(), vec![("vm1".to_string(), info("/a", 1, 1))]);
    inv.insert(
        "f".to_string(),
        vec![
            ("vm1".to_string(), info("/a", 2, 2)),
            ("vm2".to_string(), info("/b", 2, 2)),
        ],
    );
    assert_eq!(inv.entries.len(), 1);
    assert_eq!(inv.get("f").unwrap().len(), 2);
}
