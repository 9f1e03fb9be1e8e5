//! The debouncing file watcher, as a state machine over plain values.
//!
//! Kernel events arrive already decoded (the binaries read the inotify
//! stream, stat the file, and hand in device, inode and ctime); the
//! machine keeps the pending table, the open moves, the ready queue and
//! the loop-suppression cache, and every transition is specified exactly:
//! which entries coalesce, when the ready queue grows, how a move cookie
//! is resolved, and that the pending table never outgrows its ceiling.

use vstd::prelude::*;

use crate::skipcache::skip_cache_get;
use crate::skipcache::skip_cache_new;
use crate::skipcache::skip_cache_put;
use crate::skipcache::skip_contents;
use crate::skipcache::SkipCache;
use crate::strutil::has_prefix;
use crate::strutil::str_eq;

verus! {

/// Unique identifier for a file: device and inode number.
pub type FileId = (u64, u64);

/// File event emitted by the watcher.
#[derive(Debug, Clone, PartialEq, Eq)]
pub struct FileEvent {
    /// Full path to the file.
    pub path: String,
    /// Source identifier (producer name); empty if not set.
    pub source: String,
    /// Event type.
    pub kind: FileEventKind,
}

/// Type of file event.
#[derive(Debug, Clone, PartialEq, Eq)]
pub enum FileEventKind {
    /// File was modified (closed after write, or moved in from outside).
    Modified,
    /// File was deleted (or moved out of the watched tree).
    Deleted,
    /// File was renamed within the watched tree (same inode, new path).
    Renamed { old_path: String },
}

/// Handler for the watcher's events.  The binaries implement this for the
/// channel pipeline; `on_modified` and `on_renamed` return the (file id,
/// ctime) pairs of the copies they wrote, for loop prevention.
pub trait EventHandler {
    fn on_modified(&mut self, path: &str, source: &str) -> Vec<(FileId, i64)>;

    fn on_deleted(&mut self, path: &str, source: &str);

    fn on_renamed(&mut self, path: &str, old_path: &str, source: &str) -> Vec<(FileId, i64)>;
}

/// Configuration of the watcher.
#[derive(Debug, Clone, Copy, PartialEq, Eq, Structural)]
pub struct WatcherConfig {
    /// Milliseconds to wait after the last write before emitting an event.
    pub debounce_ms: u64,
    /// Ceiling of the pending table; reaching it forces the oldest entry.
    pub max_pending: usize,
}

impl Default for WatcherConfig {
    /// One second of debounce, ten thousand pending entries.
    fn default() -> (r: Self)
        ensures
            r == (WatcherConfig { debounce_ms: 1000u64, max_pending: 10000usize }),
    {
        WatcherConfig { debounce_ms: 1000, max_pending: 10000 }
    }
}

/// A file awaiting debounce expiry.
#[derive(Debug, Clone)]
pub struct PendingEntry {
    pub dev: u64,
    pub ino: u64,
    pub path: String,
    pub source: String,
    pub deadline: u64,
}

/// `a + b`, saturating at the top of the range.
pub open spec fn sat_add64(a: u64, b: u64) -> u64 {
    if a + b > u64::MAX {
        u64::MAX
    } else {
        (a + b) as u64
    }
}

/// Saturating addition on timestamps.
pub fn sat_add(a: u64, b: u64) -> (r: u64)
    ensures
        r == sat_add64(a, b),
{
    if a > u64::MAX - b {
        u64::MAX
    } else {
        a + b
    }
}

impl PendingEntry {
    /// A fresh entry whose deadline is `now` plus the debounce window.
    pub fn new(dev: u64, ino: u64, path: String, source: String, now: u64, debounce_ms: u64) -> (r:
        Self)
        ensures
            r == (PendingEntry { dev, ino, path, source, deadline: sat_add64(now, debounce_ms) }),
    {
        let deadline = sat_add(now, debounce_ms);
        PendingEntry { dev, ino, path, source, deadline }
    }

    /// Push the deadline out to `now` plus the debounce window.
    pub fn reset_deadline(&mut self, now: u64, debounce_ms: u64)
        ensures
            final(self).deadline == sat_add64(now, debounce_ms),
            final(self).dev == old(self).dev,
            final(self).ino == old(self).ino,
            final(self).path == old(self).path,
            final(self).source == old(self).source,
    {
        self.deadline = sat_add(now, debounce_ms);
    }
}

/// A `MOVED_FROM` event waiting for its matching `MOVED_TO`.
#[derive(Debug, Clone)]
pub struct PendingMove {
    pub cookie: u32,
    pub old_path: String,
    pub source: String,
    pub old_id: Option<FileId>,
    pub expires: u64,
}

/// How long an unmatched move cookie lives before the file counts as
/// deleted, in milliseconds.
pub const MOVE_COOKIE_TIMEOUT_MS: u64 = 2000;

/// Capacity of the loop-prevention cache.
pub const SKIP_CACHE_SIZE: usize = 10000;

/// Floor for the poll timeout, so the loop cannot spin, in milliseconds.
pub const MIN_POLL_INTERVAL_MS: u64 = 100;

/// Overflow backoff base delay in milliseconds.
pub const OVERFLOW_BACKOFF_BASE_MS: u64 = 2000;

/// Overflow backoff cap in milliseconds.
pub const OVERFLOW_BACKOFF_MAX_MS: u64 = 60000;

/// Milliseconds without overflow after which the backoff resets.
pub const OVERFLOW_RESET_AFTER_MS: u64 = 300000;

/// The first position at or after `i` where `pred` holds.
pub open spec fn first_match_from<T>(s: Seq<T>, pred: spec_fn(T) -> bool, i: int) -> Option<int>
    decreases s.len() - i when 0 <= i <= s.len()
{
    if i >= s.len() {
        None
    } else if pred(s[i]) {
        Some(i)
    } else {
        first_match_from(s, pred, i + 1)
    }
}

proof fn lemma_first_match_none<T>(s: Seq<T>, pred: spec_fn(T) -> bool, j: int)
    requires
        0 <= j <= s.len(),
        first_match_from(s, pred, j) is None,
    ensures
        forall|i: int| j <= i < s.len() ==> !pred(#[trigger] s[i]),
    decreases s.len() - j,
{
    if j < s.len() {
        lemma_first_match_none(s, pred, j + 1);
    }
}

proof fn lemma_first_match_some<T>(s: Seq<T>, pred: spec_fn(T) -> bool, j: int, i: int)
    requires
        0 <= j <= s.len(),
        first_match_from(s, pred, j) == Some(i),
    ensures
        j <= i < s.len(),
        pred(s[i]),
        forall|k: int| j <= k < i ==> !pred(#[trigger] s[k]),
    decreases s.len() - j,
{
    if j < s.len() && !pred(s[j]) {
        lemma_first_match_some(s, pred, j + 1, i);
    }
}

/// The index of the pending entry for a file id, if any.
pub open spec fn id_idx(s: Seq<PendingEntry>, dev: u64, ino: u64) -> Option<int> {
    first_match_from(s, |e: PendingEntry| e.dev == dev && e.ino == ino, 0)
}

/// The index of the pending entry for a path, if any.
pub open spec fn path_idx(s: Seq<PendingEntry>, path: Seq<char>) -> Option<int> {
    first_match_from(s, |e: PendingEntry| e.path@ == path, 0)
}

/// The index of the open move for a cookie, if any.
pub open spec fn cookie_idx(s: Seq<PendingMove>, cookie: u32) -> Option<int> {
    first_match_from(s, |pm: PendingMove| pm.cookie == cookie, 0)
}

/// No two pending entries share a file id or a path.
pub open spec fn pending_wf(s: Seq<PendingEntry>) -> bool {
    forall|i: int, j: int|
        0 <= i < j < s.len() ==> !((#[trigger] s[i]).dev == (#[trigger] s[j]).dev && s[i].ino
            == s[j].ino) && s[i].path@ != s[j].path@
}

/// No two open moves share a cookie.
pub open spec fn moves_wf(s: Seq<PendingMove>) -> bool {
    forall|i: int, j: int| 0 <= i < j < s.len() ==> (#[trigger] s[i]).cookie != (#[trigger] s[j]).cookie
}

/// The index of the entry with the earliest deadline, earliest position
/// winning ties.
pub open spec fn first_min_idx(s: Seq<PendingEntry>) -> int
    decreases s.len(),
{
    if s.len() <= 1 {
        0
    } else {
        let b = first_min_idx(s.drop_last());
        if s.last().deadline < s[b].deadline {
            s.len() - 1
        } else {
            b
        }
    }
}

/// The earliest-deadline index is in range and minimal.
pub proof fn lemma_first_min_idx(s: Seq<PendingEntry>)
    requires
        s.len() > 0,
    ensures
        0 <= first_min_idx(s) < s.len(),
        forall|k: int|
            0 <= k < s.len() ==> (#[trigger] s[k]).deadline >= s[first_min_idx(s)].deadline,
    decreases s.len(),
{
    if s.len() > 1 {
        lemma_first_min_idx(s.drop_last());
        assert(forall|k: int| 0 <= k < s.len() - 1 ==> s[k] == s.drop_last()[k]);
    }
}

/// The effect of one modification on the pending table and ready queue:
/// an entry for the same inode is refreshed (new path, new deadline, old
/// source kept); otherwise a stale entry holding the same path under
/// another inode is dropped and a fresh entry is added; when the table is
/// full, the entry with the earliest deadline is emitted at once to make
/// room.
pub open spec fn modify_effect(
    pending: Seq<PendingEntry>,
    ready: Seq<FileEvent>,
    dev: u64,
    ino: u64,
    path: String,
    source: String,
    now: u64,
    config: WatcherConfig,
) -> (Seq<PendingEntry>, Seq<FileEvent>) {
    let deadline = sat_add64(now, config.debounce_ms);
    match id_idx(pending, dev, ino) {
        Some(i) => {
            let kept_source = pending[i].source;
            let s1 = pending.remove(i);
            let s2 = match path_idx(s1, path@) {
                Some(j) => s1.remove(j),
                None => s1,
            };
            (s2.push(PendingEntry { dev, ino, path, source: kept_source, deadline }), ready)
        },
        None => match path_idx(pending, path@) {
            Some(j) => (
                pending.remove(j).push(PendingEntry { dev, ino, path, source, deadline }),
                ready,
            ),
            None => if pending.len() < config.max_pending {
                (pending.push(PendingEntry { dev, ino, path, source, deadline }), ready)
            } else {
                let m = first_min_idx(pending);
                (
                    pending.remove(m).push(PendingEntry { dev, ino, path, source, deadline }),
                    ready.push(
                        FileEvent {
                            path: pending[m].path,
                            source: pending[m].source,
                            kind: FileEventKind::Modified,
                        },
                    ),
                )
            },
        },
    }
}

/// The pending entries that survive a flush at time `now`.
pub open spec fn live_pending(s: Seq<PendingEntry>, now: u64) -> Seq<PendingEntry> {
    s.filter(|e: PendingEntry| e.deadline > now)
}

/// The modification events emitted by a flush at time `now`, in table
/// order.
pub open spec fn expired_events(s: Seq<PendingEntry>, now: u64) -> Seq<FileEvent>
    decreases s.len(),
{
    if s.len() == 0 {
        Seq::empty()
    } else {
        expired_events(s.drop_last(), now) + (
        if s.last().deadline <= now {
            seq![
                FileEvent {
                    path: s.last().path,
                    source: s.last().source,
                    kind: FileEventKind::Modified,
                },
            ]
        } else {
            Seq::empty()
        })
    }
}

/// The open moves that survive a flush at time `now`.
pub open spec fn live_moves(s: Seq<PendingMove>, now: u64) -> Seq<PendingMove> {
    s.filter(|pm: PendingMove| pm.expires > now)
}

/// The deletion events synthesized for the moves that expired at time
/// `now`, in table order.
pub open spec fn expired_move_events(s: Seq<PendingMove>, now: u64) -> Seq<FileEvent>
    decreases s.len(),
{
    if s.len() == 0 {
        Seq::empty()
    } else {
        expired_move_events(s.drop_last(), now) + (
        if s.last().expires <= now {
            seq![
                FileEvent {
                    path: s.last().old_path,
                    source: s.last().source,
                    kind: FileEventKind::Deleted,
                },
            ]
        } else {
            Seq::empty()
        })
    }
}

/// Every move cookie that expires yields exactly one synthesized deletion
/// event; unexpired cookies yield none and stay in the table.
pub proof fn lemma_one_event_per_expired_move(s: Seq<PendingMove>, now: u64)
    ensures
        expired_move_events(s, now).len() + live_moves(s, now).len() == s.len(),
    decreases s.len(),
{
    reveal(Seq::filter);
    if s.len() > 0 {
        lemma_one_event_per_expired_move(s.drop_last(), now);
    }
}

/// The watcher state machine.
pub struct Watcher {
    /// Debounce and capacity settings.
    pub config: WatcherConfig,
    /// Root directories added for watching, with their source names.
    pub roots: Vec<(String, String)>,
    /// Directories excluded from watching.
    pub excludes: Vec<String>,
    /// Files awaiting debounce expiry.
    pub pending: Vec<PendingEntry>,
    /// `MOVED_FROM` events awaiting their matching `MOVED_TO`.
    pub pending_moves: Vec<PendingMove>,
    /// Events ready for dispatch.
    pub ready: Vec<FileEvent>,
    /// Loop-prevention cache: file id to the ctime at the daemon's own
    /// write.
    pub skip_cache: SkipCache,
    /// Consecutive overflow count, for exponential backoff.
    pub overflow_count: u32,
    /// Time of the last overflow, for backoff reset.
    pub last_overflow: Option<u64>,
}

impl Watcher {
    /// What the loop-prevention cache holds.
    pub open spec fn skip_view(self) -> Map<FileId, i64> {
        skip_contents(self.skip_cache)
    }

    /// The state invariant: unique inodes and paths in the pending table,
    /// unique cookies among open moves, and the table within its ceiling.
    pub open spec fn wf(self) -> bool {
        &&& pending_wf(self.pending@)
        &&& moves_wf(self.pending_moves@)
        &&& self.pending@.len() <= self.config.max_pending
        &&& self.config.max_pending >= 1
    }

    /// A watcher with the given configuration and empty state.
    pub fn with_config(config: WatcherConfig) -> (r: Watcher)
        requires
            config.max_pending >= 1,
        ensures
            r.wf(),
            r.config == config,
            r.roots@.len() == 0,
            r.excludes@.len() == 0,
            r.pending@.len() == 0,
            r.pending_moves@.len() == 0,
            r.ready@.len() == 0,
            r.skip_view() == Map::<FileId, i64>::empty(),
            r.overflow_count == 0,
            r.last_overflow is None,
    {
        Watcher {
            config,
            roots: Vec::new(),
            excludes: Vec::new(),
            pending: Vec::new(),
            pending_moves: Vec::new(),
            ready: Vec::new(),
            skip_cache: skip_cache_new(SKIP_CACHE_SIZE),
            overflow_count: 0,
            last_overflow: None,
        }
    }

    /// A watcher with the default configuration.
    pub fn new() -> (r: Watcher)
        ensures
            r.wf(),
            r.config == (WatcherConfig { debounce_ms: 1000u64, max_pending: 10000usize }),
            r.pending@.len() == 0,
            r.pending_moves@.len() == 0,
            r.ready@.len() == 0,
    {
        Watcher::with_config(WatcherConfig::default())
    }

    /// Record a root directory; the caller walks it and registers the
    /// kernel watches.
    pub fn add_root(&mut self, root: String, source: String)
        ensures
            final(self).roots@ == old(self).roots@.push((root, source)),
            final(self).config == old(self).config,
            final(self).excludes == old(self).excludes,
            final(self).pending == old(self).pending,
            final(self).pending_moves == old(self).pending_moves,
            final(self).ready == old(self).ready,
            final(self).skip_view() == old(self).skip_view(),
            old(self).wf() ==> final(self).wf(),
    {
        self.roots.push((root, source));
    }

    /// Set the directories excluded from recursive watching.
    pub fn set_excludes(&mut self, excludes: Vec<String>)
        ensures
            final(self).excludes == excludes,
            final(self).config == old(self).config,
            final(self).roots == old(self).roots,
            final(self).pending == old(self).pending,
            final(self).pending_moves == old(self).pending_moves,
            final(self).ready == old(self).ready,
            final(self).skip_view() == old(self).skip_view(),
            old(self).wf() ==> final(self).wf(),
    {
        self.excludes = excludes;
    }

    /// Whether a path lies under an excluded directory.
    pub fn is_excluded(&self, path: &str) -> (r: bool)
        ensures
            r == exists|i: int|
                0 <= i < self.excludes@.len() && has_prefix(path@, (#[trigger] self.excludes@[i])@),
    {
        let n = self.excludes.len();
        let mut i: usize = 0;
        while i < n
            invariant
                n == self.excludes@.len(),
                0 <= i <= n,
                forall|k: int| 0 <= k < i ==> !has_prefix(path@, (#[trigger] self.excludes@[k])@),
            decreases n - i,
        {
            if crate::strutil::starts_with_str(path, self.excludes[i].as_str()) {
                return true;
            }
            i = i + 1;
        }
        false
    }

    /// Mark an inode as written by the daemon itself, with the ctime of
    /// the written copy; later events for it are suppressed while the
    /// ctime still matches.
    pub fn mark_written(&mut self, file_id: FileId, ctime: i64)
        ensures
            final(self).skip_view().contains_key(file_id),
            final(self).skip_view()[file_id] == ctime,
            forall|k2: FileId|
                k2 != file_id && final(self).skip_view().contains_key(k2) ==> old(self).skip_view().contains_key(k2) && final(self).skip_view()[k2] == old(self).skip_view()[k2],
            final(self).config == old(self).config,
            final(self).roots == old(self).roots,
            final(self).excludes == old(self).excludes,
            final(self).pending == old(self).pending,
            final(self).pending_moves == old(self).pending_moves,
            final(self).ready == old(self).ready,
            old(self).wf() ==> final(self).wf(),
    {
        skip_cache_put(&mut self.skip_cache, file_id, ctime);
        proof {
            assert forall|k2: FileId|
                k2 != file_id && self.skip_view().contains_key(k2) implies old(self).skip_view().contains_key(k2) && self.skip_view()[k2] == old(self).skip_view()[k2] by {
                assert(skip_contents(self.skip_cache).contains_key(k2));
            }
        }
    }

    /// The next ready event, in emission order.
    pub fn pop_ready(&mut self) -> (r: Option<FileEvent>)
        ensures
            match r {
                Some(ev) => old(self).ready@.len() > 0 && ev == old(self).ready@[0] && final(self).ready@ == old(self).ready@.remove(0),
                None => old(self).ready@.len() == 0 && final(self).ready@ == old(self).ready@,
            },
            final(self).config == old(self).config,
            final(self).roots == old(self).roots,
            final(self).excludes == old(self).excludes,
            final(self).pending == old(self).pending,
            final(self).pending_moves == old(self).pending_moves,
            final(self).skip_view() == old(self).skip_view(),
            old(self).wf() ==> final(self).wf(),
    {
        if self.ready.len() == 0 {
            return None;
        }
        Some(self.ready.remove(0))
    }

    /// Find the pending entry for a file id.
    fn find_by_id(&self, dev: u64, ino: u64) -> (r: Option<usize>)
        ensures
            match r {
                Some(i) => id_idx(self.pending@, dev, ino) == Some(i as int),
                None => id_idx(self.pending@, dev, ino) is None,
            },
    {
        let n = self.pending.len();
        let mut i: usize = 0;
        while i < n
            invariant
                n == self.pending@.len(),
                0 <= i <= n,
                first_match_from(
                    self.pending@,
                    |e: PendingEntry| e.dev == dev && e.ino == ino,
                    0,
                ) == first_match_from(
                    self.pending@,
                    |e: PendingEntry| e.dev == dev && e.ino == ino,
                    i as int,
                ),
            decreases n - i,
        {
            if self.pending[i].dev == dev && self.pending[i].ino == ino {
                return Some(i);
            }
            i = i + 1;
        }
        None
    }

    /// Find the pending entry for a path.
    fn find_by_path(&self, path: &str) -> (r: Option<usize>)
        ensures
            match r {
                Some(i) => path_idx(self.pending@, path@) == Some(i as int),
                None => path_idx(self.pending@, path@) is None,
            },
    {
        let n = self.pending.len();
        let mut i: usize = 0;
        while i < n
            invariant
                n == self.pending@.len(),
                0 <= i <= n,
                first_match_from(self.pending@, |e: PendingEntry| e.path@ == path@, 0)
                    == first_match_from(
                    self.pending@,
                    |e: PendingEntry| e.path@ == path@,
                    i as int,
                ),
            decreases n - i,
        {
            if str_eq(self.pending[i].path.as_str(), path) {
                return Some(i);
            }
            i = i + 1;
        }
        None
    }

    /// Find the open move for a cookie.
    fn find_by_cookie(&self, cookie: u32) -> (r: Option<usize>)
        ensures
            match r {
                Some(i) => cookie_idx(self.pending_moves@, cookie) == Some(i as int),
                None => cookie_idx(self.pending_moves@, cookie) is None,
            },
    {
        let n = self.pending_moves.len();
        let mut i: usize = 0;
        while i < n
            invariant
                n == self.pending_moves@.len(),
                0 <= i <= n,
                first_match_from(self.pending_moves@, |pm: PendingMove| pm.cookie == cookie, 0)
                    == first_match_from(
                    self.pending_moves@,
                    |pm: PendingMove| pm.cookie == cookie,
                    i as int,
                ),
            decreases n - i,
        {
            if self.pending_moves[i].cookie == cookie {
                return Some(i);
            }
            i = i + 1;
        }
        None
    }

    /// Emit the entry with the earliest deadline at once, to make room.
    fn force_process_oldest(&mut self)
        requires
            old(self).pending@.len() > 0,
        ensures
            ({
                let m = first_min_idx(old(self).pending@);
                final(self).pending@ == old(self).pending@.remove(m) && final(self).ready@ == old(self).ready@.push(
                    FileEvent {
                        path: old(self).pending@[m].path,
                        source: old(self).pending@[m].source,
                        kind: FileEventKind::Modified,
                    },
                )
            }),
            final(self).config == old(self).config,
            final(self).roots == old(self).roots,
            final(self).excludes == old(self).excludes,
            final(self).pending_moves == old(self).pending_moves,
            final(self).skip_view() == old(self).skip_view(),
    {
        proof {
            lemma_first_min_idx(self.pending@);
        }
        let n = self.pending.len();
        let mut best: usize = 0;
        let mut i: usize = 1;
        while i < n
            invariant
                n == self.pending@.len(),
                1 <= i <= n,
                0 <= best < i,
                best == first_min_idx(self.pending@.subrange(0, i as int)),
            decreases n - i,
        {
            proof {
                assert(self.pending@.subrange(0, i + 1).drop_last() =~= self.pending@.subrange(
                    0,
                    i as int,
                ));
            }
            if self.pending[i].deadline < self.pending[best].deadline {
                best = i;
            }
            i = i + 1;
        }
        proof {
            assert(self.pending@.subrange(0, n as int) =~= self.pending@);
        }
        let entry = self.pending.remove(best);
        self.ready.push(
            FileEvent { path: entry.path, source: entry.source, kind: FileEventKind::Modified },
        );
    }

    /// Enter a modification into the pending table, per [`modify_effect`]:
    /// a repeated write to the same inode only refreshes the deadline and
    /// path — one event per debounce window, however many writes — and
    /// the table never exceeds its ceiling.
    pub fn handle_modify(&mut self, dev: u64, ino: u64, path: String, source: String, now: u64)
        requires
            old(self).wf(),
        ensures
            final(self).wf(),
            ({
                let me = modify_effect(
                    old(self).pending@,
                    old(self).ready@,
                    dev,
                    ino,
                    path,
                    source,
                    now,
                    old(self).config,
                );
                final(self).pending@ == me.0 && final(self).ready@ == me.1
            }),
            final(self).config == old(self).config,
            final(self).roots == old(self).roots,
            final(self).excludes == old(self).excludes,
            final(self).pending_moves == old(self).pending_moves,
            final(self).skip_view() == old(self).skip_view(),
    {
        let deadline = sat_add(now, self.config.debounce_ms);
        match self.find_by_id(dev, ino) {
            Some(i) => {
                let ghost s0 = self.pending@;
                proof {
                    lemma_first_match_some(
                        s0,
                        |e: PendingEntry| e.dev == dev && e.ino == ino,
                        0,
                        i as int,
                    );
                    lemma_remove_keeps_pending_wf(s0, i as int);
                    lemma_remove_unique_id(s0, i as int, dev, ino);
                }
                let entry = self.pending.remove(i);
                let ghost s1 = self.pending@;
                match self.find_by_path(path.as_str()) {
                    Some(j) => {
                        proof {
                            lemma_first_match_some(
                                s1,
                                |e: PendingEntry| e.path@ == path@,
                                0,
                                j as int,
                            );
                            lemma_remove_keeps_pending_wf(s1, j as int);
                            lemma_remove_unique_path(s1, j as int, path@);
                            lemma_remove_no_id(s1, j as int, dev, ino);
                        }
                        self.pending.remove(j);
                    },
                    None => {
                        proof {
                            lemma_first_match_none(s1, |e: PendingEntry| e.path@ == path@, 0);
                        }
                    },
                }
                self.pending.push(
                    PendingEntry { dev, ino, path, source: entry.source, deadline },
                );
                proof {
                    lemma_push_keeps_pending_wf(self.pending@);
                }
            },
            None => {
                let ghost s0 = self.pending@;
                proof {
                    lemma_first_match_none(
                        s0,
                        |e: PendingEntry| e.dev == dev && e.ino == ino,
                        0,
                    );
                }
                match self.find_by_path(path.as_str()) {
                    Some(j) => {
                        proof {
                            lemma_first_match_some(
                                s0,
                                |e: PendingEntry| e.path@ == path@,
                                0,
                                j as int,
                            );
                            lemma_remove_keeps_pending_wf(s0, j as int);
                            lemma_remove_unique_path(s0, j as int, path@);
                            lemma_remove_no_id(s0, j as int, dev, ino);
                        }
                        self.pending.remove(j);
                        self.pending.push(PendingEntry { dev, ino, path, source, deadline });
                        proof {
                            lemma_push_keeps_pending_wf(self.pending@);
                        }
                    },
                    None => {
                        proof {
                            lemma_first_match_none(s0, |e: PendingEntry| e.path@ == path@, 0);
                        }
                        if self.pending.len() >= self.config.max_pending {
                            proof {
                                lemma_first_min_idx(s0);
                                lemma_remove_keeps_pending_wf(s0, first_min_idx(s0));
                                lemma_remove_no_id(s0, first_min_idx(s0), dev, ino);
                                lemma_remove_no_path(s0, first_min_idx(s0), path@);
                            }
                            self.force_process_oldest();
                        }
                        self.pending.push(PendingEntry { dev, ino, path, source, deadline });
                        proof {
                            lemma_push_keeps_pending_wf(self.pending@);
                        }
                    },
                }
            },
        }
    }
}

/// Removing the unique entry with a given id leaves no entry with it.
proof fn lemma_remove_unique_id(s: Seq<PendingEntry>, i: int, dev: u64, ino: u64)
    requires
        pending_wf(s),
        0 <= i < s.len(),
        s[i].dev == dev,
        s[i].ino == ino,
    ensures
        forall|k: int|
            0 <= k < s.remove(i).len() ==> !((#[trigger] s.remove(i)[k]).dev == dev && s.remove(
                i,
            )[k].ino == ino),
{
    lemma_remove_keeps_pending_wf(s, i);
    assert forall|k: int|
        0 <= k < s.remove(i).len() implies !((#[trigger] s.remove(i)[k]).dev == dev && s.remove(
        i,
    )[k].ino == ino) by {
        if k < i {
            assert(s.remove(i)[k] == s[k]);
        } else {
            assert(s.remove(i)[k] == s[k + 1]);
        }
    }
}

/// Removing the unique entry with a given path leaves no entry with it.
proof fn lemma_remove_unique_path(s: Seq<PendingEntry>, i: int, path: Seq<char>)
    requires
        pending_wf(s),
        0 <= i < s.len(),
        s[i].path@ == path,
    ensures
        forall|k: int|
            0 <= k < s.remove(i).len() ==> (#[trigger] s.remove(i)[k]).path@ != path,
{
    lemma_remove_keeps_pending_wf(s, i);
    assert forall|k: int|
        0 <= k < s.remove(i).len() implies (#[trigger] s.remove(i)[k]).path@ != path by {
        if k < i {
            assert(s.remove(i)[k] == s[k]);
        } else {
            assert(s.remove(i)[k] == s[k + 1]);
        }
    }
}

/// An absent id stays absent after any removal.
proof fn lemma_remove_no_id(s: Seq<PendingEntry>, m: int, dev: u64, ino: u64)
    requires
        0 <= m < s.len(),
        forall|k: int| 0 <= k < s.len() ==> !((#[trigger] s[k]).dev == dev && s[k].ino == ino),
    ensures
        forall|k: int|
            0 <= k < s.remove(m).len() ==> !((#[trigger] s.remove(m)[k]).dev == dev && s.remove(
                m,
            )[k].ino == ino),
{
    assert forall|k: int|
        0 <= k < s.remove(m).len() implies !((#[trigger] s.remove(m)[k]).dev == dev && s.remove(
        m,
    )[k].ino == ino) by {
        if k < m {
            assert(s.remove(m)[k] == s.subrange(0, m)[k]);
            assert(s.remove(m)[k] == s[k]);
        } else {
            assert(s.remove(m)[k] == s[k + 1]);
        }
    }
}

impl Watcher {
    /// A deletion: any pending entry for the path is dropped — its
    /// debounced modification will never be emitted — and one deletion
    /// event is pushed at once.
    pub fn handle_delete(&mut self, path: String, source: String)
        requires
            old(self).wf(),
        ensures
            final(self).wf(),
            ({
                match path_idx(old(self).pending@, path@) {
                    Some(j) => final(self).pending@ == old(self).pending@.remove(j),
                    None => final(self).pending@ == old(self).pending@,
                }
            }),
            final(self).ready@ == old(self).ready@.push(
                FileEvent { path, source, kind: FileEventKind::Deleted },
            ),
            final(self).pending_moves == old(self).pending_moves,
            final(self).skip_view() == old(self).skip_view(),
            final(self).config == old(self).config,
            final(self).roots == old(self).roots,
            final(self).excludes == old(self).excludes,
    {
        match self.find_by_path(path.as_str()) {
            Some(j) => {
                proof {
                    lemma_first_match_some(
                        self.pending@,
                        |e: PendingEntry| e.path@ == path@,
                        0,
                        j as int,
                    );
                    lemma_remove_keeps_pending_wf(self.pending@, j as int);
                }
                self.pending.remove(j);
            },
            None => {},
        }
        self.ready.push(FileEvent { path, source, kind: FileEventKind::Deleted });
    }

    /// A `MOVED_FROM`: any pending entry for the old path is dropped, and
    /// an open move is recorded under the kernel cookie, expiring two
    /// seconds from now.  A stale move under the same cookie is replaced.
    pub fn handle_move_from(
        &mut self,
        cookie: u32,
        path: String,
        source: String,
        old_id: Option<FileId>,
        now: u64,
    )
        requires
            old(self).wf(),
        ensures
            final(self).wf(),
            ({
                match path_idx(old(self).pending@, path@) {
                    Some(j) => final(self).pending@ == old(self).pending@.remove(j),
                    None => final(self).pending@ == old(self).pending@,
                }
            }),
            ({
                let pm = PendingMove {
                    cookie,
                    old_path: path,
                    source,
                    old_id,
                    expires: sat_add64(now, MOVE_COOKIE_TIMEOUT_MS),
                };
                match cookie_idx(old(self).pending_moves@, cookie) {
                    Some(c) => final(self).pending_moves@ == old(self).pending_moves@.update(
                        c,
                        pm,
                    ),
                    None => final(self).pending_moves@ == old(self).pending_moves@.push(pm),
                }
            }),
            final(self).ready == old(self).ready,
            final(self).skip_view() == old(self).skip_view(),
            final(self).config == old(self).config,
            final(self).roots == old(self).roots,
            final(self).excludes == old(self).excludes,
    {
        match self.find_by_path(path.as_str()) {
            Some(j) => {
                proof {
                    lemma_first_match_some(
                        self.pending@,
                        |e: PendingEntry| e.path@ == path@,
                        0,
                        j as int,
                    );
                    lemma_remove_keeps_pending_wf(self.pending@, j as int);
                }
                self.pending.remove(j);
            },
            None => {},
        }
        let expires = sat_add(now, MOVE_COOKIE_TIMEOUT_MS);
        let pm = PendingMove { cookie, old_path: path, source, old_id, expires };
        match self.find_by_cookie(cookie) {
            Some(c) => {
                proof {
                    lemma_first_match_some(
                        self.pending_moves@,
                        |m: PendingMove| m.cookie == cookie,
                        0,
                        c as int,
                    );
                }
                self.pending_moves.set(c, pm);
                proof {
                    lemma_update_same_cookie_keeps_moves_wf(
                        old(self).pending_moves@,
                        self.pending_moves@,
                        c as int,
                    );
                }
            },
            None => {
                proof {
                    lemma_first_match_none(
                        self.pending_moves@,
                        |m: PendingMove| m.cookie == cookie,
                        0,
                    );
                }
                self.pending_moves.push(pm);
                proof {
                    lemma_push_keeps_moves_wf(self.pending_moves@);
                }
            },
        }
    }

    /// Emit every pending entry whose deadline has passed, in table
    /// order; the rest stay.
    pub fn flush_expired(&mut self, now: u64)
        requires
            old(self).wf(),
        ensures
            final(self).wf(),
            final(self).pending@ == live_pending(old(self).pending@, now),
            final(self).ready@ == old(self).ready@ + expired_events(old(self).pending@, now),
            final(self).pending_moves == old(self).pending_moves,
            final(self).skip_view() == old(self).skip_view(),
            final(self).config == old(self).config,
            final(self).roots == old(self).roots,
            final(self).excludes == old(self).excludes,
    {
        let ghost s0 = self.pending@;
        let n = self.pending.len();
        let mut kept: Vec<PendingEntry> = Vec::new();
        let mut i: usize = 0;
        while i < n
            invariant
                n == s0.len(),
                0 <= i <= n,
                self.pending@ == s0.subrange(i as int, n as int),
                kept@ == s0.subrange(0, i as int).filter(|e: PendingEntry| e.deadline > now),
                self.ready@ == old(self).ready@ + expired_events(
                    s0.subrange(0, i as int),
                    now,
                ),
                self.pending_moves == old(self).pending_moves,
                self.skip_view() == old(self).skip_view(),
                self.config == old(self).config,
                self.roots == old(self).roots,
                self.excludes == old(self).excludes,
            decreases n - i,
        {
            proof {
                reveal(Seq::filter);
                assert(s0.subrange(0, i + 1).drop_last() =~= s0.subrange(0, i as int));
                assert(self.pending@[0] == s0[i as int]);
            }
            let entry = self.pending.remove(0);
            proof {
                assert(s0.subrange(i as int, n as int).remove(0) =~= s0.subrange(
                    i + 1,
                    n as int,
                ));
            }
            if entry.deadline <= now {
                self.ready.push(
                    FileEvent {
                        path: entry.path,
                        source: entry.source,
                        kind: FileEventKind::Modified,
                    },
                );
            } else {
                kept.push(entry);
            }
            i = i + 1;
        }
        proof {
            assert(s0.subrange(0, n as int) =~= s0);
            assert(s0.subrange(n as int, n as int) =~= Seq::<PendingEntry>::empty());
        }
        self.pending = kept;
        proof {
            lemma_filter_keeps_pending_wf(s0, |e: PendingEntry| e.deadline > now);
            s0.lemma_filter_len(|e: PendingEntry| e.deadline > now);
        }
    }

    /// Expire the open moves whose matching `MOVED_TO` never came: each
    /// one yields exactly one deletion event for its old path, in table
    /// order; unexpired moves stay.
    pub fn flush_expired_moves(&mut self, now: u64)
        requires
            old(self).wf(),
        ensures
            final(self).wf(),
            final(self).pending_moves@ == live_moves(old(self).pending_moves@, now),
            final(self).ready@ == old(self).ready@ + expired_move_events(
                old(self).pending_moves@,
                now,
            ),
            final(self).pending == old(self).pending,
            final(self).skip_view() == old(self).skip_view(),
            final(self).config == old(self).config,
            final(self).roots == old(self).roots,
            final(self).excludes == old(self).excludes,
    {
        let ghost s0 = self.pending_moves@;
        let n = self.pending_moves.len();
        let mut kept: Vec<PendingMove> = Vec::new();
        let mut i: usize = 0;
        while i < n
            invariant
                n == s0.len(),
                0 <= i <= n,
                self.pending_moves@ == s0.subrange(i as int, n as int),
                kept@ == s0.subrange(0, i as int).filter(|pm: PendingMove| pm.expires > now),
                self.ready@ == old(self).ready@ + expired_move_events(
                    s0.subrange(0, i as int),
                    now,
                ),
                self.pending == old(self).pending,
                self.skip_view() == old(self).skip_view(),
                self.config == old(self).config,
                self.roots == old(self).roots,
                self.excludes == old(self).excludes,
            decreases n - i,
        {
            proof {
                reveal(Seq::filter);
                assert(s0.subrange(0, i + 1).drop_last() =~= s0.subrange(0, i as int));
                assert(self.pending_moves@[0] == s0[i as int]);
            }
            let pm = self.pending_moves.remove(0);
            proof {
                assert(s0.subrange(i as int, n as int).remove(0) =~= s0.subrange(
                    i + 1,
                    n as int,
                ));
            }
            if pm.expires <= now {
                self.ready.push(
                    FileEvent {
                        path: pm.old_path,
                        source: pm.source,
                        kind: FileEventKind::Deleted,
                    },
                );
            } else {
                kept.push(pm);
            }
            i = i + 1;
        }
        proof {
            assert(s0.subrange(0, n as int) =~= s0);
        }
        self.pending_moves = kept;
        proof {
            lemma_filter_keeps_moves_wf(s0, |pm: PendingMove| pm.expires > now);
        }
    }

    /// How long to wait before the next flush: the distance to the
    /// nearest deadline, floored so the loop cannot spin; nothing when no
    /// entry is pending (the caller then blocks on the kernel stream).
    pub fn next_timeout(&self, now: u64) -> (r: Option<u64>)
        ensures
            match r {
                Some(d) => self.pending@.len() > 0 && d == ({
                    let remaining = sat_sub64(min_deadline(self.pending@), now);
                    if remaining < MIN_POLL_INTERVAL_MS {
                        MIN_POLL_INTERVAL_MS
                    } else {
                        remaining
                    }
                }),
                None => self.pending@.len() == 0,
            },
    {
        let n = self.pending.len();
        if n == 0 {
            return None;
        }
        let mut best: u64 = self.pending[0].deadline;
        let mut i: usize = 1;
        while i < n
            invariant
                n == self.pending@.len(),
                1 <= i <= n,
                best == min_deadline(self.pending@.subrange(0, i as int)),
            decreases n - i,
        {
            proof {
                assert(self.pending@.subrange(0, i + 1).drop_last() =~= self.pending@.subrange(
                    0,
                    i as int,
                ));
            }
            if self.pending[i].deadline < best {
                best = self.pending[i].deadline;
            }
            i = i + 1;
        }
        proof {
            assert(self.pending@.subrange(0, n as int) =~= self.pending@);
        }
        let remaining = if best > now {
            best - now
        } else {
            0
        };
        if remaining < MIN_POLL_INTERVAL_MS {
            Some(MIN_POLL_INTERVAL_MS)
        } else {
            Some(remaining)
        }
    }

    /// Enter overflow recovery: clear every table and the ready queue,
    /// advance the backoff, and return the backoff delay to sleep before
    /// the caller rescans the roots.  The backoff resets to its base
    /// after five minutes without overflow.
    pub fn handle_overflow(&mut self, now: u64) -> (r: u64)
        requires
            old(self).wf(),
        ensures
            final(self).wf(),
            final(self).pending@.len() == 0,
            final(self).pending_moves@.len() == 0,
            final(self).ready@.len() == 0,
            ({
                let reset = match old(self).last_overflow {
                    Some(last) => sat_sub64(now, last) >= OVERFLOW_RESET_AFTER_MS,
                    None => false,
                };
                let count = if reset {
                    0u32
                } else {
                    old(self).overflow_count
                };
                r == overflow_backoff(count) && final(self).overflow_count == sat_add32(count, 1)
            }),
            final(self).last_overflow == Some(now),
            final(self).skip_view() == old(self).skip_view(),
            final(self).config == old(self).config,
            final(self).roots == old(self).roots,
            final(self).excludes == old(self).excludes,
    {
        match self.last_overflow {
            Some(last) => {
                if now >= last && now - last >= OVERFLOW_RESET_AFTER_MS {
                    self.overflow_count = 0;
                }
            },
            None => {},
        }
        let count = self.overflow_count;
        let backoff = if count == 0 {
            2000
        } else if count == 1 {
            4000
        } else if count == 2 {
            8000
        } else if count == 3 {
            16000
        } else if count == 4 {
            32000
        } else {
            60000
        };
        self.overflow_count = if count == u32::MAX {
            u32::MAX
        } else {
            count + 1
        };
        self.last_overflow = Some(now);
        self.pending.clear();
        self.pending_moves.clear();
        self.ready.clear();
        backoff
    }

    /// Dispatch a decoded `MOVED_TO` or close-after-write event, per
    /// [`file_event_effect`].  When the loop-prevention cache holds this
    /// file id with the same ctime, the event was caused by the daemon's
    /// own write: nothing is emitted and nothing becomes pending.
    pub fn handle_file_event(
        &mut self,
        is_moved_to: bool,
        cookie: u32,
        path: String,
        source: String,
        dev: u64,
        ino: u64,
        ctime: i64,
        now: u64,
    )
        requires
            old(self).wf(),
        ensures
            final(self).wf(),
            ({
                let eff = file_event_effect(
                    old(self).pending@,
                    old(self).pending_moves@,
                    old(self).ready@,
                    old(self).skip_view(),
                    is_moved_to,
                    cookie,
                    path,
                    source,
                    dev,
                    ino,
                    ctime,
                    now,
                    old(self).config,
                );
                final(self).pending@ == eff.0 && final(self).pending_moves@ == eff.1 && final(self).ready@ == eff.2
            }),
            old(self).skip_view().contains_key((dev, ino)) && old(self).skip_view()[(dev, ino)]
                == ctime ==> final(self).ready == old(self).ready && final(self).pending == old(self).pending,
            final(self).skip_view() == old(self).skip_view(),
            final(self).config == old(self).config,
            final(self).roots == old(self).roots,
            final(self).excludes == old(self).excludes,
    {
        let cached = skip_cache_get(&mut self.skip_cache, (dev, ino));
        let is_skip = match cached {
            Some(c) => c == ctime,
            None => false,
        };
        if is_skip {
            if is_moved_to {
                match self.find_by_cookie(cookie) {
                    Some(ci) => {
                        proof {
                            lemma_first_match_some(
                                self.pending_moves@,
                                |m: PendingMove| m.cookie == cookie,
                                0,
                                ci as int,
                            );
                            lemma_remove_keeps_moves_wf(self.pending_moves@, ci as int);
                        }
                        self.pending_moves.remove(ci);
                    },
                    None => {},
                }
            }
            return ;
        }
        if is_moved_to {
            match self.find_by_cookie(cookie) {
                Some(ci) => {
                    proof {
                        lemma_first_match_some(
                            self.pending_moves@,
                            |m: PendingMove| m.cookie == cookie,
                            0,
                            ci as int,
                        );
                        lemma_remove_keeps_moves_wf(self.pending_moves@, ci as int);
                    }
                    let pm = self.pending_moves.remove(ci);
                    let same_inode = match pm.old_id {
                        Some(id) => id.0 == dev && id.1 == ino,
                        None => false,
                    };
                    proof {
                        assert(same_inode == (pm.old_id == Some((dev, ino))));
                    }
                    if same_inode {
                        match self.find_by_id(dev, ino) {
                            Some(pi) => {
                                proof {
                                    lemma_first_match_some(
                                        self.pending@,
                                        |e: PendingEntry| e.dev == dev && e.ino == ino,
                                        0,
                                        pi as int,
                                    );
                                    lemma_remove_keeps_pending_wf(self.pending@, pi as int);
                                }
                                self.pending.remove(pi);
                                self.ready.push(
                                    FileEvent {
                                        path: pm.old_path,
                                        source: pm.source,
                                        kind: FileEventKind::Deleted,
                                    },
                                );
                                self.handle_modify(dev, ino, path, source, now);
                            },
                            None => {
                                proof {
                                    lemma_first_match_none(
                                        self.pending@,
                                        |e: PendingEntry| e.dev == dev && e.ino == ino,
                                        0,
                                    );
                                }
                                match self.find_by_path(path.as_str()) {
                                    Some(j) => {
                                        proof {
                                            lemma_first_match_some(
                                                self.pending@,
                                                |e: PendingEntry| e.path@ == path@,
                                                0,
                                                j as int,
                                            );
                                            lemma_remove_keeps_pending_wf(
                                                self.pending@,
                                                j as int,
                                            );
                                        }
                                        self.pending.remove(j);
                                    },
                                    None => {},
                                }
                                self.ready.push(
                                    FileEvent {
                                        path,
                                        source,
                                        kind: FileEventKind::Renamed { old_path: pm.old_path },
                                    },
                                );
                            },
                        }
                    } else {
                        self.ready.push(
                            FileEvent {
                                path: pm.old_path,
                                source: pm.source,
                                kind: FileEventKind::Deleted,
                            },
                        );
                        self.handle_modify(dev, ino, path, source, now);
                    }
                },
                None => {
                    self.handle_modify(dev, ino, path, source, now);
                },
            }
        } else {
            self.handle_modify(dev, ino, path, source, now);
        }
    }
}

/// `a - b`, floored at zero.
pub open spec fn sat_sub64(a: u64, b: u64) -> u64 {
    if a <= b {
        0u64
    } else {
        (a - b) as u64
    }
}

/// `a + 1`, saturating at the top of the range.
pub open spec fn sat_add32(a: u32, b: u32) -> u32 {
    if a + b > u32::MAX {
        u32::MAX
    } else {
        (a + b) as u32
    }
}

/// The earliest deadline in a non-empty pending table.
pub open spec fn min_deadline(s: Seq<PendingEntry>) -> u64
    decreases s.len(),
{
    if s.len() <= 1 {
        s[0].deadline
    } else {
        let m = min_deadline(s.drop_last());
        if s.last().deadline < m {
            s.last().deadline
        } else {
            m
        }
    }
}

/// The exponential overflow backoff: the base delay doubled per
/// consecutive overflow, capped at one minute.
pub open spec fn overflow_backoff(count: u32) -> u64 {
    if count == 0 {
        2000u64
    } else if count == 1 {
        4000u64
    } else if count == 2 {
        8000u64
    } else if count == 3 {
        16000u64
    } else if count == 4 {
        32000u64
    } else {
        60000u64
    }
}

/// The effect of one decoded kernel file event on the watcher state:
/// an event caused by the daemon's own write is suppressed; a `MOVED_TO`
/// matching an open move of the same inode becomes a rename (or, if the
/// file was still pending, a deletion of the old path and a fresh
/// debounce of the new); one of a different inode becomes a deletion of
/// the old path plus a modification; anything else is a modification.
pub open spec fn file_event_effect(
    pending: Seq<PendingEntry>,
    moves: Seq<PendingMove>,
    ready: Seq<FileEvent>,
    skip: Map<FileId, i64>,
    is_moved_to: bool,
    cookie: u32,
    path: String,
    source: String,
    dev: u64,
    ino: u64,
    ctime: i64,
    now: u64,
    config: WatcherConfig,
) -> (Seq<PendingEntry>, Seq<PendingMove>, Seq<FileEvent>) {
    if skip.contains_key((dev, ino)) && skip[(dev, ino)] == ctime {
        let moves2 = if is_moved_to {
            match cookie_idx(moves, cookie) {
                Some(ci) => moves.remove(ci),
                None => moves,
            }
        } else {
            moves
        };
        (pending, moves2, ready)
    } else if is_moved_to {
        match cookie_idx(moves, cookie) {
            Some(ci) => {
                let pm = moves[ci];
                let moves2 = moves.remove(ci);
                if pm.old_id == Some((dev, ino)) {
                    match id_idx(pending, dev, ino) {
                        Some(pi) => {
                            let pending2 = pending.remove(pi);
                            let ready2 = ready.push(
                                FileEvent {
                                    path: pm.old_path,
                                    source: pm.source,
                                    kind: FileEventKind::Deleted,
                                },
                            );
                            let me = modify_effect(
                                pending2,
                                ready2,
                                dev,
                                ino,
                                path,
                                source,
                                now,
                                config,
                            );
                            (me.0, moves2, me.1)
                        },
                        None => {
                            let pending2 = match path_idx(pending, path@) {
                                Some(j) => pending.remove(j),
                                None => pending,
                            };
                            (
                                pending2,
                                moves2,
                                ready.push(
                                    FileEvent {
                                        path,
                                        source,
                                        kind: FileEventKind::Renamed { old_path: pm.old_path },
                                    },
                                ),
                            )
                        },
                    }
                } else {
                    let ready2 = ready.push(
                        FileEvent {
                            path: pm.old_path,
                            source: pm.source,
                            kind: FileEventKind::Deleted,
                        },
                    );
                    let me = modify_effect(pending, ready2, dev, ino, path, source, now, config);
                    (me.0, moves2, me.1)
                }
            },
            None => {
                let me = modify_effect(pending, ready, dev, ino, path, source, now, config);
                (me.0, moves, me.1)
            },
        }
    } else {
        let me = modify_effect(pending, ready, dev, ino, path, source, now, config);
        (me.0, moves, me.1)
    }
}

/// The pending table never exceeds its configured ceiling.
pub proof fn lemma_pending_bounded(w: Watcher)
    requires
        w.wf(),
    ensures
        w.pending@.len() <= w.config.max_pending,
{
}

/// Writing again to a file that is already pending emits nothing and
/// adds no entry: the writes of one debounce window coalesce into a
/// single eventual modification event.
pub proof fn lemma_repeated_write_coalesces(
    pending: Seq<PendingEntry>,
    ready: Seq<FileEvent>,
    dev: u64,
    ino: u64,
    path: String,
    source: String,
    now: u64,
    config: WatcherConfig,
)
    requires
        id_idx(pending, dev, ino) is Some,
    ensures
        modify_effect(pending, ready, dev, ino, path, source, now, config).1 == ready,
        modify_effect(pending, ready, dev, ino, path, source, now, config).0.len()
            <= pending.len(),
{
    let i = id_idx(pending, dev, ino)->Some_0;
    lemma_first_match_some(pending, |e: PendingEntry| e.dev == dev && e.ino == ino, 0, i);
    let s1 = pending.remove(i);
    match path_idx(s1, path@) {
        Some(j) => {
            lemma_first_match_some(s1, |e: PendingEntry| e.path@ == path@, 0, j);
        },
        None => {},
    }
}

/// Removing an open move keeps cookie uniqueness.
proof fn lemma_remove_keeps_moves_wf(s: Seq<PendingMove>, m: int)
    requires
        moves_wf(s),
        0 <= m < s.len(),
    ensures
        moves_wf(s.remove(m)),
{
    assert forall|j: int| 0 <= j < s.len() - 1 implies #[trigger] s.remove(m)[j] == (if j < m {
        s[j]
    } else {
        s[j + 1]
    }) by {
        if j < m {
            assert(s.remove(m)[j] == s.subrange(0, m)[j]);
        }
    }
}

/// Replacing an open move with one carrying the same cookie keeps
/// uniqueness.
proof fn lemma_update_same_cookie_keeps_moves_wf(
    before: Seq<PendingMove>,
    after: Seq<PendingMove>,
    c: int,
)
    requires
        moves_wf(before),
        0 <= c < before.len(),
        after == before.update(c, after[c]),
        after.len() == before.len(),
        after[c].cookie == before[c].cookie,
    ensures
        moves_wf(after),
{
    assert forall|i: int, j: int| 0 <= i < j < after.len() implies (#[trigger] after[i]).cookie
        != (#[trigger] after[j]).cookie by {
        assert(before[i].cookie != before[j].cookie);
        if i != c {
            assert(after[i] == before[i]);
        }
        if j != c {
            assert(after[j] == before[j]);
        }
    }
}

/// Pushing an open move whose cookie is absent keeps uniqueness.
proof fn lemma_push_keeps_moves_wf(after: Seq<PendingMove>)
    requires
        after.len() > 0,
        moves_wf(after.drop_last()),
        forall|k: int|
            0 <= k < after.len() - 1 ==> (#[trigger] after[k]).cookie != after.last().cookie,
    ensures
        moves_wf(after),
{
    assert forall|i: int, j: int| 0 <= i < j < after.len() implies (#[trigger] after[i]).cookie
        != (#[trigger] after[j]).cookie by {
        if j < after.len() - 1 {
            assert(after.drop_last()[i] == after[i]);
            assert(after.drop_last()[j] == after[j]);
        } else {
            assert(after[j] == after.last());
        }
    }
}

/// Filtering the pending table keeps uniqueness.
proof fn lemma_filter_keeps_pending_wf(s: Seq<PendingEntry>, pred: spec_fn(PendingEntry) -> bool)
    requires
        pending_wf(s),
    ensures
        pending_wf(s.filter(pred)),
        forall|x: PendingEntry| #[trigger] s.filter(pred).contains(x) ==> s.contains(x),
    decreases s.len(),
{
    reveal(Seq::filter);
    if s.len() > 0 {
        let d = s.drop_last();
        assert(forall|k: int| 0 <= k < d.len() ==> d[k] == s[k]);
        lemma_filter_keeps_pending_wf(d, pred);
        let f = s.filter(pred);
        let fd = d.filter(pred);
        if pred(s.last()) {
            assert(f == fd.push(s.last()));
            assert forall|i: int, j: int| 0 <= i < j < f.len() implies !((#[trigger] f[i]).dev == (
            #[trigger] f[j]).dev && f[i].ino == f[j].ino) && f[i].path@ != f[j].path@ by {
                if j < f.len() - 1 {
                    assert(fd[i] == f[i]);
                    assert(fd[j] == f[j]);
                } else {
                    assert(f[j] == s.last());
                    assert(fd.contains(fd[i]));
                    assert(d.contains(fd[i]));
                    let k = choose|k: int| 0 <= k < d.len() && d[k] == fd[i];
                    assert(s[k] == fd[i]);
                }
            }
            assert forall|x: PendingEntry| #[trigger] f.contains(x) implies s.contains(x) by {
                let i = choose|i: int| 0 <= i < f.len() && f[i] == x;
                if i < f.len() - 1 {
                    assert(fd.contains(x));
                    let k = choose|k: int| 0 <= k < d.len() && d[k] == x;
                    assert(s[k] == x);
                } else {
                    assert(s[s.len() - 1] == x);
                }
            }
        } else {
            assert(f == fd);
            assert forall|x: PendingEntry| #[trigger] f.contains(x) implies s.contains(x) by {
                assert(d.contains(x));
                let k = choose|k: int| 0 <= k < d.len() && d[k] == x;
                assert(s[k] == x);
            }
        }
    }
}

/// Filtering the open moves keeps cookie uniqueness.
proof fn lemma_filter_keeps_moves_wf(s: Seq<PendingMove>, pred: spec_fn(PendingMove) -> bool)
    requires
        moves_wf(s),
    ensures
        moves_wf(s.filter(pred)),
    decreases s.len(),
{
    reveal(Seq::filter);
    if s.len() > 0 {
        let d = s.drop_last();
        assert(forall|k: int| 0 <= k < d.len() ==> d[k] == s[k]);
        lemma_filter_keeps_moves_wf(d, pred);
        let f = s.filter(pred);
        let fd = d.filter(pred);
        if pred(s.last()) {
            assert(f == fd.push(s.last()));
            assert forall|i: int, j: int| 0 <= i < j < f.len() implies (#[trigger] f[i]).cookie
                != (#[trigger] f[j]).cookie by {
                if j < f.len() - 1 {
                    assert(fd[i] == f[i]);
                    assert(fd[j] == f[j]);
                } else {
                    assert(f[j] == s.last());
                    assert(fd.contains(fd[i]));
                    lemma_filter_moves_contains(d, pred, i);
                    let k = choose|k: int| 0 <= k < d.len() && d[k] == fd[i];
                    assert(s[k] == fd[i]);
                }
            }
        }
    }
}

/// An element of a filtered move table occurs in the table it came from.
proof fn lemma_filter_moves_contains(s: Seq<PendingMove>, pred: spec_fn(PendingMove) -> bool, i: int)
    requires
        0 <= i < s.filter(pred).len(),
    ensures
        s.contains(s.filter(pred)[i]),
    decreases s.len(),
{
    reveal(Seq::filter);
    if s.len() > 0 {
        let d = s.drop_last();
        let fd = d.filter(pred);
        if i < fd.len() {
            lemma_filter_moves_contains(d, pred, i);
            let k = choose|k: int| 0 <= k < d.len() && d[k] == fd[i];
            assert(s[k] == s.filter(pred)[i]);
        } else {
            assert(s.filter(pred)[i] == s.last());
            assert(s[s.len() - 1] == s.last());
        }
    }
}

/// An absent path stays absent after any removal.
proof fn lemma_remove_no_path(s: Seq<PendingEntry>, m: int, path: Seq<char>)
    requires
        0 <= m < s.len(),
        forall|k: int| 0 <= k < s.len() ==> (#[trigger] s[k]).path@ != path,
    ensures
        forall|k: int| 0 <= k < s.remove(m).len() ==> (#[trigger] s.remove(m)[k]).path@ != path,
{
    assert forall|k: int|
        0 <= k < s.remove(m).len() implies (#[trigger] s.remove(m)[k]).path@ != path by {
        if k < m {
            assert(s.remove(m)[k] == s.subrange(0, m)[k]);
            assert(s.remove(m)[k] == s[k]);
        } else {
            assert(s.remove(m)[k] == s[k + 1]);
        }
    }
}

/// Removing an entry keeps the table's uniqueness.
proof fn lemma_remove_keeps_pending_wf(s: Seq<PendingEntry>, m: int)
    requires
        pending_wf(s),
        0 <= m < s.len(),
    ensures
        pending_wf(s.remove(m)),
        forall|j: int|
            0 <= j < s.len() - 1 ==> #[trigger] s.remove(m)[j] == (if j < m {
                s[j]
            } else {
                s[j + 1]
            }),
{
    assert forall|j: int| 0 <= j < s.len() - 1 implies #[trigger] s.remove(m)[j] == (if j < m {
        s[j]
    } else {
        s[j + 1]
    }) by {
        if j < m {
            assert(s.remove(m)[j] == s.subrange(0, m)[j]);
        }
    }
}

/// Pushing an entry that matches nothing keeps uniqueness.
proof fn lemma_push_keeps_pending_wf(after: Seq<PendingEntry>)
    requires
        after.len() > 0,
        pending_wf(after.drop_last()),
        forall|k: int|
            0 <= k < after.len() - 1 ==> !((#[trigger] after[k]).dev == after.last().dev
                && after[k].ino == after.last().ino) && after[k].path@ != after.last().path@,
    ensures
        pending_wf(after),
{
    assert forall|i: int, j: int| 0 <= i < j < after.len() implies !((#[trigger] after[i]).dev == (
    #[trigger] after[j]).dev && after[i].ino == after[j].ino) && after[i].path@
        != after[j].path@ by {
        if j < after.len() - 1 {
            assert(after.drop_last()[i] == after[i]);
            assert(after.drop_last()[j] == after[j]);
        } else {
            assert(after[j] == after.last());
        }
    }
}

} // verus!
