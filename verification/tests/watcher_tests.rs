use ghaf_tools::watcher::{FileEvent, FileEventKind, PendingEntry, Watcher, WatcherConfig};

fn watcher(debounce_ms: u64, max_pending: usize) -> Watcher {
    Watcher::with_config(WatcherConfig {
        debounce_ms,
        max_pending,
    })
}

fn modified(path: &str, source: &str) -> FileEvent {
    FileEvent {
        path: path.to_string(),
        source: source.to_string(),
        kind: FileEventKind::Modified,
    }
}

#[test]
fn own_write_with_matching_ctime_is_suppressed() {
    // An inode in the skip cache with a matching ctime emits nothing.
    let mut w = watcher(200, 100);
    w.mark_written((1, 42), 777);
    w.handle_file_event(false, 0, "/ch/share/a/f".to_string(), "a".to_string(), 1, 42, 777, 0);
    assert!(w.pending.is_empty());
    assert!(w.ready.is_empty());
}

#[test]
fn own_write_with_changed_ctime_is_processed() {
    let mut w = watcher(200, 100);
    w.mark_written((1, 42), 777);
    w.handle_file_event(false, 0, "/ch/share/a/f".to_string(), "a".to_string(), 1, 42, 778, 0);
    assert_eq!(w.pending.len(), 1);
}

#[test]
fn repeated_writes_coalesce_into_one_event() {
    // Writing the same bytes to the same path twice in succession
    // produces one Modified event per debounce window.
    let mut w = watcher(200, 100);
    w.handle_modify(1, 42, "/ch/share/a/f".to_string(), "a".to_string(), 0);
    w.handle_modify(1, 42, "/ch/share/a/f".to_string(), "a".to_string(), 100);
    assert_eq!(w.pending.len(), 1);
    assert_eq!(w.pending[0].deadline, 300);
    w.flush_expired(250);
    assert!(w.ready.is_empty(), "debounce was refreshed by the second write");
    w.flush_expired(300);
    assert_eq!(w.ready.len(), 1);
    assert_eq!(w.pop_ready(), Some(modified("/ch/share/a/f", "a")));
    assert_eq!(w.pop_ready(), None);
}

#[test]
fn write_then_delete_within_debounce_yields_single_deleted() {
    // File written then deleted within the window: one Deleted, no
    // Modified.
    let mut w = watcher(200, 100);
    w.handle_modify(1, 42, "/ch/share/a/f".to_string(), "a".to_string(), 0);
    w.handle_delete("/ch/share/a/f".to_string(), "a".to_string());
    assert!(w.pending.is_empty());
    w.flush_expired(1000);
    assert_eq!(w.ready.len(), 1);
    assert_eq!(
        w.pop_ready(),
        Some(FileEvent {
            path: "/ch/share/a/f".to_string(),
            source: "a".to_string(),
            kind: FileEventKind::Deleted,
        })
    );
}

#[test]
fn rename_of_scanned_file_emits_single_renamed() {
    // A rename of an already-scanned file: exactly one Renamed event and
    // nothing new to scan.
    let mut w = watcher(200, 100);
    w.handle_move_from(9, "/ch/share/a/old".to_string(), "a".to_string(), Some((1, 42)), 0);
    w.handle_file_event(true, 9, "/ch/share/a/new".to_string(), "a".to_string(), 1, 42, 5, 10);
    assert!(w.pending.is_empty(), "no rescan for unchanged content");
    assert!(w.pending_moves.is_empty());
    assert_eq!(w.ready.len(), 1);
    assert_eq!(
        w.pop_ready(),
        Some(FileEvent {
            path: "/ch/share/a/new".to_string(),
            source: "a".to_string(),
            kind: FileEventKind::Renamed {
                old_path: "/ch/share/a/old".to_string()
            },
        })
    );
}

#[test]
fn replacement_by_new_inode_deletes_then_rescans() {
    // A file replaced by a new inode at the same path: one Deleted for
    // the old, then a normal debounced Modified for the new.
    let mut w = watcher(200, 100);
    w.handle_move_from(9, "/ch/share/a/f".to_string(), "a".to_string(), Some((1, 42)), 0);
    w.handle_file_event(true, 9, "/ch/share/a/f".to_string(), "a".to_string(), 1, 43, 5, 10);
    assert_eq!(w.ready.len(), 1);
    assert_eq!(
        w.pop_ready(),
        Some(FileEvent {
            path: "/ch/share/a/f".to_string(),
            source: "a".to_string(),
            kind: FileEventKind::Deleted,
        })
    );
    assert_eq!(w.pending.len(), 1);
    assert_eq!(w.pending[0].ino, 43);
    w.flush_expired(210);
    assert_eq!(w.pop_ready(), Some(modified("/ch/share/a/f", "a")));
}

#[test]
fn unmatched_cookie_expires_to_exactly_one_deleted() {
    // An unpaired move cookie becomes exactly one Deleted within the
    // two-second window - never both, never neither.
    let mut w = watcher(200, 100);
    w.handle_move_from(7, "/ch/share/a/gone".to_string(), "a".to_string(), Some((1, 42)), 0);
    w.flush_expired_moves(1999);
    assert!(w.ready.is_empty());
    assert_eq!(w.pending_moves.len(), 1);
    w.flush_expired_moves(2000);
    assert_eq!(w.ready.len(), 1);
    assert!(w.pending_moves.is_empty());
    assert_eq!(
        w.pop_ready(),
        Some(FileEvent {
            path: "/ch/share/a/gone".to_string(),
            source: "a".to_string(),
            kind: FileEventKind::Deleted,
        })
    );
    // A later flush synthesizes nothing further for the cookie.
    w.flush_expired_moves(10_000);
    assert!(w.ready.is_empty());
}

#[test]
fn moved_in_from_outside_enters_debounce() {
    let mut w = watcher(200, 100);
    w.handle_file_event(true, 11, "/ch/share/a/new".to_string(), "a".to_string(), 1, 50, 5, 0);
    assert_eq!(w.pending.len(), 1);
    assert!(w.ready.is_empty());
}

#[test]
fn next_timeout_tracks_nearest_deadline() {
    let mut w = watcher(500, 100);
    assert_eq!(w.next_timeout(0), None);
    w.handle_modify(1, 1, "/a".to_string(), "s".to_string(), 0);
    w.handle_modify(1, 2, "/b".to_string(), "s".to_string(), 300);
    assert_eq!(w.next_timeout(100), Some(400));
    // The poll floor keeps the loop from spinning.
    assert_eq!(w.next_timeout(480), Some(100));
    assert_eq!(w.next_timeout(9999), Some(100));
}

#[test]
fn pending_table_never_exceeds_ceiling() {
    // Push many unique close-after-write events through a small table
    // and watch the ceiling hold while every file still comes out
    // exactly once.
    let ceiling = 1000;
    let files = 20_000u64;
    let mut w = watcher(200, ceiling);
    for i in 0..files {
        let path = format!("/ch/share/a/f{i}");
        w.handle_modify(1, i, path, "a".to_string(), 0);
        assert!(w.pending.len() <= ceiling);
    }
    // Everything still pending is flushed once the window passes.
    w.flush_expired(10_000);
    let mut seen = 0u64;
    while let Some(ev) = w.pop_ready() {
        assert!(matches!(ev.kind, FileEventKind::Modified));
        seen += 1;
    }
    assert_eq!(seen, files);
    assert!(w.pending.is_empty());
}

#[test]
fn overflow_clears_state_and_backs_off_exponentially() {
    let mut w = watcher(200, 100);
    w.handle_modify(1, 1, "/a".to_string(), "s".to_string(), 0);
    w.handle_move_from(5, "/b".to_string(), "s".to_string(), None, 0);
    assert_eq!(w.handle_overflow(1000), 2000);
    assert!(w.pending.is_empty());
    assert!(w.pending_moves.is_empty());
    assert!(w.ready.is_empty());
    assert_eq!(w.handle_overflow(2000), 4000);
    assert_eq!(w.handle_overflow(3000), 8000);
    assert_eq!(w.handle_overflow(4000), 16000);
    assert_eq!(w.handle_overflow(5000), 32000);
    assert_eq!(w.handle_overflow(6000), 60000);
    assert_eq!(w.handle_overflow(7000), 60000);
    // Five minutes of quiet resets the backoff to its base.
    assert_eq!(w.handle_overflow(7000 + 300_000), 2000);
    // After the reset and rescan, re-enqueued files are pending again.
    w.handle_modify(1, 1, "/a".to_string(), "s".to_string(), 400_000);
    assert_eq!(w.pending.len(), 1);
}

#[test]
fn excludes_match_by_prefix() {
    let mut w = Watcher::new();
    w.set_excludes(vec!["/ch/share/a/.cache".to_string()]);
    assert!(w.is_excluded("/ch/share/a/.cache/tmp1"));
    assert!(!w.is_excluded("/ch/share/a/docs/file"));
}

#[test]
fn pending_entry_deadline_arithmetic() {
    let e = PendingEntry::new(1, 2, "/p".to_string(), "s".to_string(), 100, 250);
    assert_eq!(e.deadline, 350);
    let mut e2 = e.clone();
    e2.reset_deadline(500, 250);
    assert_eq!(e2.deadline, 750);
    let e3 = PendingEntry::new(1, 2, "/p".to_string(), "s".to_string(), u64::MAX - 10, 250);
    assert_eq!(e3.deadline, u64::MAX);
}

#[test]
fn suppressed_move_still_clears_its_cookie() {
    // A MOVED_TO caused by the daemon's own write is dropped, but the
    // open move under its cookie must not linger and expire into a
    // bogus deletion.
    let mut w = watcher(200, 100);
    w.mark_written((1, 42), 777);
    w.handle_move_from(9, "/ch/share/a/old".to_string(), "a".to_string(), Some((1, 42)), 0);
    w.handle_file_event(true, 9, "/ch/share/a/new".to_string(), "a".to_string(), 1, 42, 777, 10);
    assert!(w.pending_moves.is_empty());
    w.flush_expired_moves(10_000);
    assert!(w.ready.is_empty());
}

#[test]
fn ready_events_come_out_in_order() {
    let mut w = watcher(200, 100);
    w.handle_delete("/ch/share/a/x".to_string(), "a".to_string());
    w.handle_delete("/ch/share/a/y".to_string(), "a".to_string());
    assert_eq!(w.pop_ready().unwrap().path, "/ch/share/a/x");
    assert_eq!(w.pop_ready().unwrap().path, "/ch/share/a/y");
    assert_eq!(w.pop_ready(), None);
}
