use ghaf_tools::config::{ChannelConfig, ScanningConfig, UserNotifyConfig};
use ghaf_tools::daemon::{
    install_metadata, needs_scan, verdict_action, ChannelHandler, Destination, FileMeta,
    VerdictAction,
};
use ghaf_tools::scanner::ScanResult;
use ghaf_tools::util::InfectedAction;

// =========================================================================
// is_safe_relative_path tests
// =========================================================================

#[test]
fn safe_path_simple() {
    assert!(ChannelHandler::is_safe_relative_path("file.txt"));
}

#[test]
fn safe_path_nested() {
    assert!(ChannelHandler::is_safe_relative_path("subdir/file.txt"));
}

#[test]
fn safe_path_deeply_nested() {
    assert!(ChannelHandler::is_safe_relative_path("a/b/c/d/file.txt"));
}

#[test]
fn unsafe_path_parent_simple() {
    assert!(!ChannelHandler::is_safe_relative_path("../file.txt"));
}

#[test]
fn unsafe_path_parent_nested() {
    assert!(!ChannelHandler::is_safe_relative_path("subdir/../file.txt"));
}

#[test]
fn unsafe_path_parent_deep() {
    assert!(!ChannelHandler::is_safe_relative_path("a/b/../../c/file.txt"));
}

#[test]
fn unsafe_path_absolute() {
    assert!(!ChannelHandler::is_safe_relative_path("/etc/passwd"));
}

#[test]
fn unsafe_path_absolute_nested() {
    assert!(!ChannelHandler::is_safe_relative_path("/var/log/file.txt"));
}

#[test]
fn safe_path_dotfile() {
    // Single dot in filename is fine
    assert!(ChannelHandler::is_safe_relative_path(".hidden"));
}

#[test]
fn safe_path_dot_in_name() {
    // Dots in middle of filename are fine
    assert!(ChannelHandler::is_safe_relative_path("file..txt"));
}

#[test]
fn safe_path_empty() {
    // Empty path has no dangerous components
    assert!(ChannelHandler::is_safe_relative_path(""));
}

// =========================================================================
// should_ignore tests
// =========================================================================

fn make_handler_with_patterns(
    file_patterns: Vec<&str>,
    path_patterns: Vec<&str>,
) -> ChannelHandler {
    let config = ChannelConfig {
        base_path: "/tmp/test".to_string(),
        producers: vec!["vm1".to_string()],
        consumers: vec![],
        diode_producers: vec![],
        debounce_ms: 1000,
        scanning: ScanningConfig {
            ignore_file_patterns: file_patterns.into_iter().map(String::from).collect(),
            ignore_path_patterns: path_patterns.into_iter().map(String::from).collect(),
            ..ScanningConfig::default()
        },
        user_notify: UserNotifyConfig::default(),
        guest_notify: None,
    };

    ChannelHandler::new("test".to_string(), config)
}

#[test]
fn ignore_crdownload() {
    let handler = make_handler_with_patterns(vec![".crdownload"], vec![]);
    assert!(handler.should_ignore("/share/vm1/file.crdownload", "file.crdownload"));
}

#[test]
fn ignore_part_file() {
    let handler = make_handler_with_patterns(vec![".part"], vec![]);
    assert!(handler.should_ignore("/share/vm1/download.part", "download.part"));
}

#[test]
fn ignore_tilde_prefix() {
    let handler = make_handler_with_patterns(vec!["~$"], vec![]);
    assert!(handler.should_ignore("/share/vm1/~$document.docx", "~$document.docx"));
}

#[test]
fn ignore_tmp_extension() {
    let handler = make_handler_with_patterns(vec![".tmp"], vec![]);
    assert!(handler.should_ignore("/share/vm1/file.tmp", "file.tmp"));
}

#[test]
fn no_ignore_normal_file() {
    let handler = make_handler_with_patterns(vec![".crdownload", ".part", ".tmp"], vec![]);
    assert!(!handler.should_ignore("/share/vm1/document.pdf", "document.pdf"));
}

#[test]
fn no_ignore_similar_name() {
    let handler = make_handler_with_patterns(vec![".crdownload"], vec![]);
    // "crdownload" without the dot should not match ".crdownload" pattern
    assert!(!handler.should_ignore("/share/vm1/crdownload", "crdownload"));
}

#[test]
fn ignore_trash_path() {
    let handler = make_handler_with_patterns(vec![], vec![".Trash-"]);
    assert!(handler.should_ignore("/share/vm1/.Trash-1000/file.txt", ".Trash-1000/file.txt"));
}

#[test]
fn ignore_local_trash_path() {
    let handler = make_handler_with_patterns(vec![], vec![".local/share/Trash"]);
    assert!(handler.should_ignore(
        "/share/vm1/.local/share/Trash/files/deleted.txt",
        ".local/share/Trash/files/deleted.txt"
    ));
}

#[test]
fn no_ignore_normal_path() {
    let handler = make_handler_with_patterns(vec![], vec![".Trash-"]);
    assert!(!handler.should_ignore("/share/vm1/documents/file.txt", "documents/file.txt"));
}

#[test]
fn ignore_combined_patterns() {
    let handler = make_handler_with_patterns(vec![".crdownload"], vec![".Trash-"]);
    // File pattern match
    assert!(handler.should_ignore("/share/vm1/file.crdownload", "file.crdownload"));
    // Path pattern match
    assert!(handler.should_ignore("/share/vm1/.Trash-1000/file.txt", ".Trash-1000/file.txt"));
    // Neither match
    assert!(!handler.should_ignore("/share/vm1/normal.txt", "normal.txt"));
}

#[test]
fn ignore_empty_patterns() {
    let handler = make_handler_with_patterns(vec![], vec![]);
    assert!(!handler.should_ignore("/share/vm1/file.txt", "file.txt"));
}

#[test]
fn ignore_pattern_in_middle() {
    let handler = make_handler_with_patterns(vec![".part"], vec![]);
    // Pattern can match anywhere in filename
    assert!(handler.should_ignore("/share/vm1/file.part.bak", "file.part.bak"));
}

// =========================================================================
// Event admission, verdicts and plans
// =========================================================================

fn docs_handler(producers: Vec<&str>, consumers: Vec<&str>, diode: Vec<&str>) -> ChannelHandler {
    let config = ChannelConfig {
        base_path: "/ch".to_string(),
        producers: producers.into_iter().map(String::from).collect(),
        consumers: consumers.into_iter().map(String::from).collect(),
        diode_producers: diode.into_iter().map(String::from).collect(),
        debounce_ms: 200,
        scanning: ScanningConfig::default(),
        user_notify: UserNotifyConfig::default(),
        guest_notify: None,
    };
    ChannelHandler::new("docs".to_string(), config)
}

#[test]
fn preprocess_strips_share_prefix() {
    let handler = docs_handler(vec!["a", "b"], vec!["c"], vec![]);
    let rel = handler.preprocess_event("/ch/share/a/note.txt", "a");
    assert_eq!(rel, Some("note.txt".to_string()));
}

#[test]
fn preprocess_drops_traversal() {
    let handler = docs_handler(vec!["a", "b"], vec!["c"], vec![]);
    assert_eq!(handler.preprocess_event("/ch/share/a/../escape.txt", "a"), None);
}

#[test]
fn preprocess_drops_foreign_path() {
    let handler = docs_handler(vec!["a", "b"], vec!["c"], vec![]);
    assert_eq!(handler.preprocess_event("/elsewhere/note.txt", "a"), None);
}

#[test]
fn preprocess_drops_ignored() {
    let mut handler = docs_handler(vec!["a", "b"], vec!["c"], vec![]);
    handler.config.scanning.ignore_file_patterns = vec![".part".to_string()];
    assert_eq!(handler.preprocess_event("/ch/share/a/x.part", "a"), None);
}

#[test]
fn empty_file_skips_scan() {
    // Empty file: the scanner is never asked, the file publishes at once.
    let scanning = ScanningConfig::default();
    assert!(!needs_scan(&scanning, 0));
    assert!(needs_scan(&scanning, 1));
}

#[test]
fn disabled_scanning_skips_scan() {
    let mut scanning = ScanningConfig::default();
    scanning.enable = false;
    assert!(!needs_scan(&scanning, 4096));
}

#[test]
fn verdicts_follow_policy() {
    let mut scanning = ScanningConfig::default();
    assert_eq!(
        verdict_action(&scanning, &ScanResult::Clean),
        VerdictAction::Publish
    );
    assert_eq!(
        verdict_action(&scanning, &ScanResult::Infected("Sig".to_string())),
        VerdictAction::DeleteSource
    );
    assert_eq!(
        verdict_action(&scanning, &ScanResult::Error),
        VerdictAction::DeleteSource
    );
    assert_eq!(
        verdict_action(&scanning, &ScanResult::NotFound),
        VerdictAction::Drop
    );
    scanning.permissive = true;
    assert_eq!(
        verdict_action(&scanning, &ScanResult::Error),
        VerdictAction::Publish
    );
    scanning.permissive = false;
    scanning.infected_action = InfectedAction::Quarantine;
    assert_eq!(
        verdict_action(&scanning, &ScanResult::Infected("Sig".to_string())),
        VerdictAction::QuarantineThenDelete
    );
    scanning.infected_action = InfectedAction::Log;
    assert_eq!(
        verdict_action(&scanning, &ScanResult::Infected("Sig".to_string())),
        VerdictAction::LogOnly
    );
}

// Channel docs, producers [a,b], consumers [c]: a clean write of
// note.txt from a lands in share/b and in export, nowhere else.
#[test]
fn clean_write_publishes_to_peer_and_export() {
    let handler = docs_handler(vec!["a", "b"], vec!["c"], vec![]);
    let plan = handler.plan_publish("a", "note.txt", &vec![false, false], false);
    assert_eq!(plan.len(), 2);
    assert_eq!(plan[0].dest, Destination::Peer("b".to_string()));
    assert_eq!(plan[0].target_path, "/ch/share/b/note.txt");
    assert_eq!(plan[1].dest, Destination::Export);
    assert_eq!(plan[1].target_path, "/ch/export/note.txt");
}

// An infected write plans no install at all; the source is deleted.
#[test]
fn infected_write_installs_nothing() {
    let handler = docs_handler(vec!["a", "b"], vec!["c"], vec![]);
    let scanning = ScanningConfig::default();
    let action = verdict_action(&scanning, &ScanResult::Infected("Eicar".to_string()));
    assert_eq!(action, VerdictAction::DeleteSource);
    let infected_message =
        ghaf_tools::util::notify_infected("/ch/share/a/eicar.txt", "Eicar");
    assert_eq!(
        infected_message,
        "Malware Eicar was detected in file: /ch/share/a/eicar.txt"
    );
}

// Diode producers: a's writes reach b only where b has no local copy,
// and nothing is ever installed under a diode producer's own tree.
#[test]
fn diode_source_never_overwrites() {
    let handler = docs_handler(vec!["a", "b"], vec!["c"], vec!["a"]);
    // b already has file.txt: the diode source a must not overwrite it.
    let plan = handler.plan_publish("a", "file.txt", &vec![false, true], false);
    assert!(plan.iter().all(|op| op.dest != Destination::Peer("b".to_string())));
    // Export is still missing the file, so it receives it.
    assert!(plan.iter().any(|op| op.dest == Destination::Export));
}

#[test]
fn diode_producer_never_receives() {
    let handler = docs_handler(vec!["a", "b"], vec!["c"], vec!["a"]);
    // A write from b must never land under share/a.
    let plan = handler.plan_publish("b", "file.txt", &vec![false, false], false);
    assert!(plan
        .iter()
        .all(|op| op.dest != Destination::Peer("a".to_string())));
    assert!(plan.iter().all(|op| !op.target_path.starts_with("/ch/share/a/")));
    assert_eq!(plan.len(), 1); // export only: a is the sole peer and is a diode
    assert_eq!(plan[0].dest, Destination::Export);
}

#[test]
fn deletion_reaches_peers_and_export() {
    let handler = docs_handler(vec!["a", "b"], vec!["c"], vec![]);
    let plan = handler.plan_deleted("a", "note.txt");
    assert_eq!(plan.len(), 2);
    assert_eq!(plan[0].target_path, "/ch/share/b/note.txt");
    assert_eq!(plan[1].target_path, "/ch/export/note.txt");
}

#[test]
fn rename_deletes_old_and_installs_new() {
    let handler = docs_handler(vec!["a", "b"], vec!["c"], vec![]);
    let (deletes, installs) =
        handler.plan_renamed("a", "old.txt", "new.txt", &vec![false, false], false);
    assert_eq!(deletes.len(), 2);
    assert_eq!(deletes[0].target_path, "/ch/share/b/old.txt");
    assert_eq!(installs.len(), 2);
    assert_eq!(installs[0].target_path, "/ch/share/b/new.txt");
    assert_eq!(installs[1].target_path, "/ch/export/new.txt");
}

#[test]
fn install_metadata_masks_special_bits() {
    // Publishing preserves mode bits masked to 0o777 and uid/gid;
    // suid/sgid/sticky are always cleared.
    let meta = FileMeta {
        mode: 0o104755, // regular file, setuid, rwxr-xr-x
        uid: 1000,
        gid: 100,
    };
    let install = install_metadata(Some(&meta));
    assert_eq!(install.mode, 0o755);
    assert_eq!(install.mode & 0o7000, 0);
    assert_eq!(install.uid, 1000);
    assert_eq!(install.gid, 100);

    let quarantine = install_metadata(None);
    assert_eq!(quarantine.mode, 0);
    assert_eq!(quarantine.uid, 0);
    assert_eq!(quarantine.gid, 0);
}

#[test]
fn channel_paths_are_under_base() {
    let handler = docs_handler(vec!["a"], vec![], vec![]);
    assert_eq!(handler.share_path("a"), "/ch/share/a");
    assert_eq!(handler.export_path(), "/ch/export");
    assert_eq!(handler.staging_path(), "/ch/staging");
    assert_eq!(handler.quarantine_path(), "/ch/quarantine");
    assert_eq!(handler.quarantine_target("x/y.txt"), "/ch/quarantine/x/y.txt");
}

#[test]
fn preflight_targets_cover_all_destinations() {
    let handler = docs_handler(vec!["a", "b"], vec!["c"], vec![]);
    let targets = handler.preflight_targets();
    assert_eq!(
        targets,
        vec!["/ch/share/a", "/ch/share/b", "/ch/export", "/ch/quarantine"]
    );
}
