//! Startup reconciliation for a channel.
//!
//! Before the watcher attaches, the producer subtrees and the export tree
//! are scanned into inventories; from those this module computes which
//! files must be re-synced (handed to the channel handler as synthetic
//! modifications) and which export files are stale and must go.  Walking
//! the directories and executing the actions is I/O and lives with the
//! binaries.

use vstd::prelude::*;

use crate::config::ChannelConfig;
use crate::strutil::str_eq;

verus! {

/// File metadata from an inventory scan.
#[derive(Debug, Clone, PartialEq, Eq)]
pub struct FileInfo {
    /// Full path to the file.
    pub path: String,
    /// Modification time (Unix timestamp).
    pub mtime: i64,
    /// File size in bytes.
    pub size: u64,
}

/// Action to take during sync.
#[derive(Debug, Clone, PartialEq, Eq)]
pub enum SyncAction {
    /// Hand the file to the channel handler as a synthetic modification;
    /// the handler scans and propagates it.
    TriggerSync { source: String, path: String, relative: String },
    /// Delete an orphan file from export (present in no producer).
    DeleteStale { path: String, relative: String },
}

/// Statistics from a sync pass.
#[derive(Debug, Clone, PartialEq, Eq)]
pub struct SyncStats {
    /// Files scanned in producers.
    pub producer_files: usize,
    /// Files scanned in export.
    pub export_files: usize,
    /// Files synced (handed to the handler).
    pub synced: usize,
    /// Stale files deleted from export.
    pub deleted: usize,
    /// Errors encountered.
    pub errors: usize,
}

impl Default for SyncStats {
    /// All counters start at zero.
    fn default() -> (r: Self)
        ensures
            r == (SyncStats {
                producer_files: 0usize,
                export_files: 0usize,
                synced: 0usize,
                deleted: 0usize,
                errors: 0usize,
            }),
    {
        SyncStats { producer_files: 0, export_files: 0, synced: 0, deleted: 0, errors: 0 }
    }
}

/// One inventory slot: a relative path and the (source, metadata) pairs
/// found for it.
pub type InventorySlot = (String, Vec<(String, FileInfo)>);

/// The index of the first slot whose relative path is `rel`, scanning from
/// position `i`.
pub open spec fn first_idx_from(s: Seq<InventorySlot>, rel: Seq<char>, i: int) -> Option<int>
    decreases s.len() - i when 0 <= i <= s.len()
{
    if i >= s.len() {
        None
    } else if s[i].0@ == rel {
        Some(i)
    } else {
        first_idx_from(s, rel, i + 1)
    }
}

/// When the scan from `j` finds nothing, no slot at or after `j` has the
/// path.
proof fn lemma_first_idx_none(s: Seq<InventorySlot>, rel: Seq<char>, j: int)
    requires
        0 <= j <= s.len(),
        first_idx_from(s, rel, j) is None,
    ensures
        forall|i: int| j <= i < s.len() ==> s[i].0@ != rel,
    decreases s.len() - j,
{
    if j < s.len() {
        lemma_first_idx_none(s, rel, j + 1);
    }
}

/// When the scan from `j` finds `i`, the slot at `i` has the path.
proof fn lemma_first_idx_some(s: Seq<InventorySlot>, rel: Seq<char>, j: int, i: int)
    requires
        0 <= j <= s.len(),
        first_idx_from(s, rel, j) == Some(i),
    ensures
        j <= i < s.len(),
        s[i].0@ == rel,
    decreases s.len() - j,
{
    if j < s.len() && s[j].0@ != rel {
        lemma_first_idx_some(s, rel, j + 1, i);
    }
}

/// The number of recorded (source, metadata) pairs across all slots.
pub open spec fn total_records(s: Seq<InventorySlot>) -> nat
    decreases s.len(),
{
    if s.len() == 0 {
        0
    } else {
        total_records(s.drop_last()) + s.last().1@.len()
    }
}

/// Replacing one slot changes the record count by the slots' difference.
proof fn lemma_total_records_update(s: Seq<InventorySlot>, i: int, x: InventorySlot)
    requires
        0 <= i < s.len(),
    ensures
        total_records(s.update(i, x)) + s[i].1@.len() == total_records(s) + x.1@.len(),
    decreases s.len(),
{
    let u = s.update(i, x);
    if i == s.len() - 1 {
        assert(u.drop_last() =~= s.drop_last());
    } else {
        assert(u.drop_last() =~= s.drop_last().update(i, x));
        lemma_total_records_update(s.drop_last(), i, x);
    }
}

/// Inventory of one tree: for each relative path, the sources that hold it
/// and the metadata each one saw.
#[derive(Debug, Clone)]
pub struct Inventory {
    pub entries: Vec<InventorySlot>,
}

impl Inventory {
    /// The index of the slot for `rel`, if one exists.
    pub open spec fn spec_find(self, rel: Seq<char>) -> Option<int> {
        first_idx_from(self.entries@, rel, 0)
    }

    /// Whether a slot for `rel` exists.
    pub open spec fn spec_contains(self, rel: Seq<char>) -> bool {
        self.spec_find(rel) is Some
    }

    /// Each relative path has at most one slot.
    pub open spec fn wf(self) -> bool {
        forall|i: int, j: int|
            0 <= i < j < self.entries@.len() ==> self.entries@[i].0@ != self.entries@[j].0@
    }

    /// An empty inventory.
    pub fn new() -> (r: Inventory)
        ensures
            r.entries@.len() == 0,
            r.wf(),
    {
        Inventory { entries: Vec::new() }
    }

    /// The slot contents for `rel`, if present.
    pub fn get(&self, rel: &str) -> (r: Option<&Vec<(String, FileInfo)>>)
        ensures
            match r {
                Some(v) => self.spec_find(rel@) matches Some(i) && *v == self.entries@[i].1,
                None => self.spec_find(rel@) is None,
            },
    {
        let n = self.entries.len();
        let mut i: usize = 0;
        while i < n
            invariant
                n == self.entries@.len(),
                0 <= i <= n,
                first_idx_from(self.entries@, rel@, 0) == first_idx_from(
                    self.entries@,
                    rel@,
                    i as int,
                ),
            decreases n - i,
        {
            if str_eq(self.entries[i].0.as_str(), rel) {
                return Some(&self.entries[i].1);
            }
            i = i + 1;
        }
        None
    }

    /// Replace the whole slot for `rel`, or create it.  Mirrors a map
    /// insert; used by tests and by the grouping below.
    pub fn insert(&mut self, rel: String, slot: Vec<(String, FileInfo)>)
        ensures
            match old(self).spec_find(rel@) {
                Some(i) => final(self).entries@ == old(self).entries@.update(i, (rel, slot)),
                None => final(self).entries@ == old(self).entries@.push((rel, slot)),
            },
            old(self).wf() ==> final(self).wf(),
    {
        let n = self.entries.len();
        let mut i: usize = 0;
        while i < n
            invariant
                n == self.entries@.len(),
                0 <= i <= n,
                self.entries@ == old(self).entries@,
                first_idx_from(self.entries@, rel@, 0) == first_idx_from(
                    self.entries@,
                    rel@,
                    i as int,
                ),
            decreases n - i,
        {
            if str_eq(self.entries[i].0.as_str(), rel.as_str()) {
                proof {
                    lemma_first_idx_some(self.entries@, rel@, i as int, i as int);
                }
                self.entries.set(i, (rel, slot));
                return ;
            }
            i = i + 1;
        }
        proof {
            lemma_first_idx_none(self.entries@, rel@, 0);
        }
        self.entries.push((rel, slot));
    }

    /// Record that `source` holds `rel` with metadata `info`: appended to
    /// the existing slot, or a new slot is opened.
    pub fn add(&mut self, rel: String, source: String, info: FileInfo)
        ensures
            ({
                let before = old(self).entries@;
                let after = final(self).entries@;
                match old(self).spec_find(rel@) {
                    Some(i) => after.len() == before.len() && after[i].0 == before[i].0
                        && after[i].1@ == before[i].1@.push((source, info)) && (forall|k: int|
                        0 <= k < before.len() && k != i ==> after[k] == before[k]),
                    None => after.len() == before.len() + 1 && after.subrange(
                        0,
                        before.len() as int,
                    ) == before && after.last().0 == rel && after.last().1@ == seq![
                        (source, info),
                    ],
                }
            }),
            old(self).wf() ==> final(self).wf(),
            total_records(final(self).entries@) == total_records(old(self).entries@) + 1,
    {
        let n = self.entries.len();
        let mut i: usize = 0;
        while i < n
            invariant
                n == self.entries@.len(),
                0 <= i <= n,
                self.entries@ == old(self).entries@,
                first_idx_from(self.entries@, rel@, 0) == first_idx_from(
                    self.entries@,
                    rel@,
                    i as int,
                ),
            decreases n - i,
        {
            if str_eq(self.entries[i].0.as_str(), rel.as_str()) {
                proof {
                    lemma_first_idx_some(self.entries@, rel@, i as int, i as int);
                }
                let mut slot = self.entries.remove(i);
                slot.1.push((source, info));
                self.entries.insert(i, slot);
                proof {
                    assert(final(self).entries@ =~= old(self).entries@.update(
                        i as int,
                        final(self).entries@[i as int],
                    ));
                    lemma_total_records_update(
                        old(self).entries@,
                        i as int,
                        final(self).entries@[i as int],
                    );
                }
                return ;
            }
            i = i + 1;
        }
        proof {
            lemma_first_idx_none(self.entries@, rel@, 0);
        }
        let mut slot: Vec<(String, FileInfo)> = Vec::new();
        slot.push((source, info));
        self.entries.push((rel, slot));
        proof {
            assert(final(self).entries@.subrange(0, old(self).entries@.len() as int) =~= old(
                self,
            ).entries@);
            assert(final(self).entries@.drop_last() =~= old(self).entries@);
        }
    }
}

/// Group flat scan listings into the two inventories: one record per file
/// seen under a producer (source, relative path, metadata), and one per
/// file seen under export (relative path, metadata).  Each relative path
/// gets one slot, and no record is lost or invented.
pub fn build_inventory(
    producer_files: Vec<(String, String, FileInfo)>,
    export_files: Vec<(String, FileInfo)>,
) -> (r: (Inventory, Inventory))
    ensures
        r.0.wf(),
        r.1.wf(),
        total_records(r.0.entries@) == producer_files@.len(),
        total_records(r.1.entries@) == export_files@.len(),
{
    let mut producers = Inventory::new();
    let n = producer_files.len();
    let mut i: usize = 0;
    while i < n
        invariant
            producers.wf(),
            n == producer_files@.len(),
            0 <= i <= n,
            total_records(producers.entries@) == i,
        decreases n - i,
    {
        let source = producer_files[i].0.clone();
        let rel = producer_files[i].1.clone();
        let info = producer_files[i].2.clone();
        producers.add(rel, source, info);
        i = i + 1;
    }
    let mut export = Inventory::new();
    let m = export_files.len();
    let mut j: usize = 0;
    while j < m
        invariant
            export.wf(),
            m == export_files@.len(),
            0 <= j <= m,
            total_records(export.entries@) == j,
        decreases m - j,
    {
        let rel = export_files[j].0.clone();
        let info = export_files[j].1.clone();
        export.add(rel, String::from_str("export"), info);
        j = j + 1;
    }
    (producers, export)
}

/// The index of the authoritative entry of a slot: the last one carrying
/// the greatest modification time.
pub open spec fn best_idx(entries: Seq<(String, FileInfo)>) -> int
    decreases entries.len(),
{
    if entries.len() <= 1 {
        0
    } else {
        let b = best_idx(entries.drop_last());
        if entries.last().1.mtime >= entries[b].1.mtime {
            entries.len() - 1
        } else {
            b
        }
    }
}

/// The authoritative index is in range and carries a maximal mtime.
pub proof fn lemma_best_idx(entries: Seq<(String, FileInfo)>)
    requires
        entries.len() > 0,
    ensures
        0 <= best_idx(entries) < entries.len(),
        forall|k: int|
            0 <= k < entries.len() ==> (#[trigger] entries[k]).1.mtime <= entries[best_idx(
                entries,
            )].1.mtime,
    decreases entries.len(),
{
    if entries.len() > 1 {
        lemma_best_idx(entries.drop_last());
        assert(forall|k: int|
            0 <= k < entries.len() - 1 ==> entries[k] == entries.drop_last()[k]);
    }
}

/// The producers disagree on the file: more than one copy, and some copy
/// differs from the first in mtime or size.
pub open spec fn producers_conflict(entries: Seq<(String, FileInfo)>) -> bool {
    entries.len() > 1 && exists|k: int|
        1 <= k < entries.len() && ((#[trigger] entries[k]).1.mtime != entries[0].1.mtime
            || entries[k].1.size != entries[0].1.size)
}

/// Export needs the file: there are consumers, and export either lacks the
/// path or holds a copy that differs from the authoritative one.
pub open spec fn export_needs_sync(
    rel: Seq<char>,
    best: FileInfo,
    export: Inventory,
    config: ChannelConfig,
) -> bool {
    config.consumers@.len() > 0 && match export.spec_find(rel) {
        None => true,
        Some(i) => exists|k: int|
            0 <= k < export.entries@[i].1@.len() && (export.entries@[i].1@[k].1.mtime != best.mtime
                || export.entries@[i].1@[k].1.size != best.size),
    }
}

/// A producer file must be re-synced when its producers conflict, when
/// some producer lacks it, or when export needs it.
pub open spec fn trigger_cond(
    rel: Seq<char>,
    entries: Seq<(String, FileInfo)>,
    export: Inventory,
    config: ChannelConfig,
) -> bool {
    entries.len() > 0 && (producers_conflict(entries) || entries.len() < config.producers@.len()
        || export_needs_sync(rel, entries[best_idx(entries)].1, export, config))
}

/// The action for one producer slot: a synthetic modification from the
/// authoritative source when a re-sync is due, nothing otherwise.
pub open spec fn spec_producer_action(
    rel: String,
    entries: Seq<(String, FileInfo)>,
    export: Inventory,
    config: ChannelConfig,
) -> Option<SyncAction> {
    if trigger_cond(rel@, entries, export, config) {
        Some(
            SyncAction::TriggerSync {
                source: entries[best_idx(entries)].0,
                path: entries[best_idx(entries)].1.path,
                relative: rel,
            },
        )
    } else {
        None
    }
}

/// Compute the action for a file present in at least one producer.
pub fn compute_producer_action(
    relative: &String,
    entries: &Vec<(String, FileInfo)>,
    export: &Inventory,
    config: &ChannelConfig,
) -> (r: Option<SyncAction>)
    ensures
        r == spec_producer_action(*relative, entries@, *export, *config),
{
    let n = entries.len();
    if n == 0 {
        return None;
    }
    proof {
        lemma_best_idx(entries@);
    }

    // Authoritative entry: the last one with the greatest mtime.
    let mut best: usize = 0;
    let mut i: usize = 1;
    while i < n
        invariant
            n == entries@.len(),
            1 <= i <= n,
            0 <= best < i,
            best == best_idx(entries@.subrange(0, i as int)),
        decreases n - i,
    {
        proof {
            assert(entries@.subrange(0, i + 1).drop_last() =~= entries@.subrange(0, i as int));
        }
        if entries[i].1.mtime >= entries[best].1.mtime {
            best = i;
        }
        i = i + 1;
    }
    proof {
        assert(entries@.subrange(0, n as int) =~= entries@);
    }

    // Do the producers disagree among themselves?
    let mut conflict = false;
    let mut k: usize = 1;
    while k < n
        invariant
            n == entries@.len(),
            1 <= k <= n,
            conflict <==> exists|m: int|
                1 <= m < k && ((#[trigger] entries@[m]).1.mtime != entries@[0].1.mtime
                    || entries@[m].1.size != entries@[0].1.size),
        decreases n - k,
    {
        if entries[k].1.mtime != entries[0].1.mtime || entries[k].1.size != entries[0].1.size {
            conflict = true;
        }
        k = k + 1;
    }

    let needs_producer_sync = n < config.producers.len();

    let needs_export_sync: bool;
    if config.consumers.len() == 0 {
        needs_export_sync = false;
    } else {
        match export.get(relative.as_str()) {
            None => {
                needs_export_sync = true;
            },
            Some(export_entries) => {
                let en = export_entries.len();
                let mut mismatch = false;
                let mut e: usize = 0;
                while e < en
                    invariant
                        en == export_entries@.len(),
                        0 <= e <= en,
                        0 <= best < entries@.len(),
                        mismatch <==> exists|m: int|
                            0 <= m < e && (export_entries@[m].1.mtime
                                != entries@[best as int].1.mtime || export_entries@[m].1.size
                                != entries@[best as int].1.size),
                    decreases en - e,
                {
                    if export_entries[e].1.mtime != entries[best].1.mtime
                        || export_entries[e].1.size != entries[best].1.size {
                        mismatch = true;
                    }
                    e = e + 1;
                }
                needs_export_sync = mismatch;
            },
        }
    }

    if conflict || needs_producer_sync || needs_export_sync {
        Some(
            SyncAction::TriggerSync {
                source: entries[best].0.clone(),
                path: entries[best].1.path.clone(),
                relative: relative.clone(),
            },
        )
    } else {
        None
    }
}

/// The re-sync actions for a sequence of producer slots, in slot order.
pub open spec fn spec_trigger_actions(
    slots: Seq<InventorySlot>,
    export: Inventory,
    config: ChannelConfig,
) -> Seq<SyncAction>
    decreases slots.len(),
{
    if slots.len() == 0 {
        Seq::empty()
    } else {
        spec_trigger_actions(slots.drop_last(), export, config) + match spec_producer_action(
            slots.last().0,
            slots.last().1@,
            export,
            config,
        ) {
            Some(a) => seq![a],
            None => Seq::empty(),
        }
    }
}

/// The stale-deletion actions for a sequence of export slots, in slot
/// order: one per export path no producer holds.
pub open spec fn spec_stale_actions(slots: Seq<InventorySlot>, producers: Inventory) -> Seq<
    SyncAction,
>
    decreases slots.len(),
{
    if slots.len() == 0 {
        Seq::empty()
    } else {
        spec_stale_actions(slots.drop_last(), producers) + (
        if !producers.spec_contains(slots.last().0@) && slots.last().1@.len() > 0 {
            seq![
                SyncAction::DeleteStale {
                    path: slots.last().1@[0].1.path,
                    relative: slots.last().0,
                },
            ]
        } else {
            Seq::empty()
        })
    }
}

/// Compute all sync actions: first the re-syncs for producer files, then
/// the deletions of stale export files.
pub fn compute_actions(
    producers: &Inventory,
    export: &Inventory,
    config: &ChannelConfig,
) -> (r: Vec<SyncAction>)
    ensures
        r@ == spec_trigger_actions(producers.entries@, *export, *config) + spec_stale_actions(
            export.entries@,
            *producers,
        ),
{
    let mut actions: Vec<SyncAction> = Vec::new();

    let n = producers.entries.len();
    let mut i: usize = 0;
    while i < n
        invariant
            n == producers.entries@.len(),
            0 <= i <= n,
            actions@ == spec_trigger_actions(
                producers.entries@.subrange(0, i as int),
                *export,
                *config,
            ),
        decreases n - i,
    {
        proof {
            assert(producers.entries@.subrange(0, i + 1).drop_last() =~= producers.entries@.subrange(
                0,
                i as int,
            ));
        }
        let slot = &producers.entries[i];
        match compute_producer_action(&slot.0, &slot.1, export, config) {
            Some(action) => {
                actions.push(action);
            },
            None => {},
        }
        i = i + 1;
    }
    proof {
        assert(producers.entries@.subrange(0, n as int) =~= producers.entries@);
    }

    let ghost trigger_part = actions@;
    let m = export.entries.len();
    let mut j: usize = 0;
    while j < m
        invariant
            m == export.entries@.len(),
            0 <= j <= m,
            actions@ == trigger_part + spec_stale_actions(
                export.entries@.subrange(0, j as int),
                *producers,
            ),
        decreases m - j,
    {
        proof {
            assert(export.entries@.subrange(0, j + 1).drop_last() =~= export.entries@.subrange(
                0,
                j as int,
            ));
        }
        let slot = &export.entries[j];
        if producers.get(slot.0.as_str()).is_none() && slot.1.len() > 0 {
            actions.push(
                SyncAction::DeleteStale {
                    path: slot.1[0].1.path.clone(),
                    relative: slot.0.clone(),
                },
            );
        }
        j = j + 1;
    }
    proof {
        assert(export.entries@.subrange(0, m as int) =~= export.entries@);
    }
    actions
}

/// A channel is quiescent when no producer slot needs a re-sync and every
/// export slot is held by some producer (or is empty).
pub open spec fn quiescent(producers: Inventory, export: Inventory, config: ChannelConfig) -> bool {
    (forall|i: int|
        0 <= i < producers.entries@.len() ==> !trigger_cond(
            (#[trigger] producers.entries@[i]).0@,
            producers.entries@[i].1@,
            export,
            config,
        )) && (forall|j: int|
        0 <= j < export.entries@.len() ==> (producers.spec_contains(
            (#[trigger] export.entries@[j]).0@,
        ) || export.entries@[j].1@.len() == 0))
}

/// The sync pass is idempotent on a quiescent tree: it computes no actions
/// at all, so running it any number of times performs no writes.  The
/// converse holds too: when it computes no actions, the tree is quiescent.
pub proof fn lemma_sync_idempotent(producers: Inventory, export: Inventory, config: ChannelConfig)
    ensures
        quiescent(producers, export, config) <==> spec_trigger_actions(
            producers.entries@,
            export,
            config,
        ) + spec_stale_actions(export.entries@, producers) =~= Seq::<SyncAction>::empty(),
{
    lemma_trigger_actions_empty(producers.entries@, export, config);
    lemma_stale_actions_empty(export.entries@, producers);
}

proof fn lemma_trigger_actions_empty(
    slots: Seq<InventorySlot>,
    export: Inventory,
    config: ChannelConfig,
)
    ensures
        spec_trigger_actions(slots, export, config) =~= Seq::<SyncAction>::empty() <==> (forall|
            i: int,
        |
            0 <= i < slots.len() ==> !trigger_cond(
                (#[trigger] slots[i]).0@,
                slots[i].1@,
                export,
                config,
            )),
    decreases slots.len(),
{
    if slots.len() > 0 {
        lemma_trigger_actions_empty(slots.drop_last(), export, config);
        assert(forall|i: int| 0 <= i < slots.len() - 1 ==> slots[i] == slots.drop_last()[i]);
        assert(slots.last() == slots[slots.len() - 1]);
    }
}

proof fn lemma_stale_actions_empty(slots: Seq<InventorySlot>, producers: Inventory)
    ensures
        spec_stale_actions(slots, producers) =~= Seq::<SyncAction>::empty() <==> (forall|j: int|
            0 <= j < slots.len() ==> (producers.spec_contains((#[trigger] slots[j]).0@)
                || slots[j].1@.len() == 0)),
    decreases slots.len(),
{
    if slots.len() > 0 {
        lemma_stale_actions_empty(slots.drop_last(), producers);
        assert(forall|i: int| 0 <= i < slots.len() - 1 ==> slots[i] == slots.drop_last()[i]);
        assert(slots.last() == slots[slots.len() - 1]);
    }
}

} // verus!
