//! The channel handler: the per-event rules of the propagation gate.
//!
//! For every watcher event the handler decides, in this order: does the
//! path belong under the source's share tree and stay inside it; is it
//! ignored by pattern; must it be scanned; and, given the verdict, which
//! installs and deletions are performed at which target paths, with which
//! permissions and ownership.  All decisions are specified and verified
//! here as plan computations over plain values; the filesystem work
//! (opening, cloning into staging, renaming into place) is carried out by
//! the binaries exactly as planned.

use vstd::prelude::*;

use crate::config::ChannelConfig;
use crate::config::ScanningConfig;
use crate::scanner::ScanResult;
use crate::strutil::any_contains_sub;
use crate::strutil::contains_string;
use crate::strutil::has_prefix;
use crate::util::InfectedAction;

verus! {

/// Metadata of a source file, as far as installation needs it.
#[derive(Debug, Clone, Copy, PartialEq, Eq, Structural)]
pub struct FileMeta {
    pub mode: u32,
    pub uid: u32,
    pub gid: u32,
}

/// Permissions and ownership applied to an installed copy.
#[derive(Debug, Clone, Copy, PartialEq, Eq, Structural)]
pub struct InstallMeta {
    pub mode: u32,
    pub uid: u32,
    pub gid: u32,
}

/// Where a copy or a deletion lands.
#[derive(Debug, Clone, PartialEq, Eq)]
pub enum Destination {
    /// A peer producer's share tree.
    Peer(String),
    /// The flat export tree.
    Export,
}

/// One planned installation: clone the staged content to `target_path`.
#[derive(Debug, Clone, PartialEq, Eq)]
pub struct InstallOp {
    pub dest: Destination,
    pub target_path: String,
}

/// One planned deletion at `target_path`.
#[derive(Debug, Clone, PartialEq, Eq)]
pub struct DeleteOp {
    pub dest: Destination,
    pub target_path: String,
}

/// What to do once the verdict for a staged file is known.
#[derive(Debug, Clone, Copy, PartialEq, Eq, Structural)]
pub enum VerdictAction {
    /// Publish the staged bytes to the peers and export.
    Publish,
    /// Log only; the source file stays.
    LogOnly,
    /// Delete the source file.
    DeleteSource,
    /// Install a copy under quarantine, then delete the source.
    QuarantineThenDelete,
    /// Drop the event (staged file vanished).
    Drop,
}

/// `..` stands as a whole path component at position `i` of `s`.
pub open spec fn is_dotdot_at(s: Seq<char>, i: int) -> bool {
    &&& 0 <= i
    &&& i + 2 <= s.len()
    &&& s[i] == '.'
    &&& s[i + 1] == '.'
    &&& (i == 0 || s[i - 1] == '/')
    &&& (i + 2 == s.len() || s[i + 2] == '/')
}

/// A relative path is safe when it is not absolute and no component is
/// the parent directory.
pub open spec fn spec_safe_rel_path(s: Seq<char>) -> bool {
    &&& !(s.len() > 0 && s[0] == '/')
    &&& !(exists|i: int| is_dotdot_at(s, i))
}

/// The filename part of a path: the text after the last `/`, or the whole
/// path when it has none.
pub open spec fn spec_filename(s: Seq<char>) -> Seq<char> {
    match crate::scanner::find_last(s, "/"@) {
        Some(i) => s.subrange(i + 1, s.len() as int),
        None => s,
    }
}

/// An event is ignored when a configured filename substring occurs in the
/// filename, or a configured path substring occurs in the relative path.
pub open spec fn spec_should_ignore(
    scanning: ScanningConfig,
    path: Seq<char>,
    relative: Seq<char>,
) -> bool {
    ||| any_contains_sub(scanning.ignore_file_patterns@, spec_filename(path))
    ||| any_contains_sub(scanning.ignore_path_patterns@, relative)
}

/// The handler for one channel.
#[derive(Debug, Clone)]
pub struct ChannelHandler {
    /// The channel's name.
    pub name: String,
    /// The channel's configuration.
    pub config: ChannelConfig,
}

impl ChannelHandler {
    pub fn new(name: String, config: ChannelConfig) -> (r: Self)
        ensures
            r.name == name,
            r.config == config,
    {
        ChannelHandler { name, config }
    }

    /// The share tree of one producer: `<base>/share/<producer>`.
    pub fn share_path(&self, producer: &str) -> (r: String)
        ensures
            r@ == self.config.base_path@ + "/share/"@ + producer@,
    {
        let mut s = self.config.base_path.clone();
        s.append("/share/");
        s.append(producer);
        s
    }

    /// The export tree: `<base>/export`.
    pub fn export_path(&self) -> (r: String)
        ensures
            r@ == self.config.base_path@ + "/export"@,
    {
        let mut s = self.config.base_path.clone();
        s.append("/export");
        s
    }

    /// The staging area: `<base>/staging`.
    pub fn staging_path(&self) -> (r: String)
        ensures
            r@ == self.config.base_path@ + "/staging"@,
    {
        let mut s = self.config.base_path.clone();
        s.append("/staging");
        s
    }

    /// The quarantine area: `<base>/quarantine`.
    pub fn quarantine_path(&self) -> (r: String)
        ensures
            r@ == self.config.base_path@ + "/quarantine"@,
    {
        let mut s = self.config.base_path.clone();
        s.append("/quarantine");
        s
    }

    /// A relative path has no parent-directory and no root component.
    pub fn is_safe_relative_path(path: &str) -> (r: bool)
        ensures
            r == spec_safe_rel_path(path@),
    {
        let n = path.unicode_len();
        if n > 0 && path.get_char(0) == '/' {
            return false;
        }
        if n >= 2 {
            let mut i: usize = 0;
            while i < n - 1
                invariant
                    n == path@.len(),
                    n >= 2,
                    0 <= i <= n - 1,
                    forall|k: int| 0 <= k < i ==> !is_dotdot_at(path@, k),
                decreases n - 1 - i,
            {
                if path.get_char(i) == '.' && path.get_char(i + 1) == '.' && (i == 0
                    || path.get_char(i - 1) == '/') && (i + 2 == n || path.get_char(i + 2)
                    == '/') {
                    assert(is_dotdot_at(path@, i as int));
                    return false;
                }
                assert(!is_dotdot_at(path@, i as int));
                i = i + 1;
            }
        }
        assert(forall|k: int| is_dotdot_at(path@, k) ==> 0 <= k && k + 2 <= n);
        true
    }

    /// Whether the event for `path` (relative path `relative` under the
    /// share tree) is suppressed by the channel's ignore patterns.
    pub fn should_ignore(&self, path: &str, relative: &str) -> (r: bool)
        ensures
            r == spec_should_ignore(self.config.scanning, path@, relative@),
    {
        let filename = filename_of(path);
        if crate::strutil::any_pattern_matches(
            &self.config.scanning.ignore_file_patterns,
            filename,
        ) {
            return true;
        }
        crate::strutil::any_pattern_matches(&self.config.scanning.ignore_path_patterns, relative)
    }

    /// Strip the share prefix of `source` from `path`: the remainder after
    /// `<base>/share/<source>/`, or the empty path for the share root
    /// itself.  Anything else is not under the share tree.
    pub fn relative_to_share(&self, path: &str, source: &str) -> (r: Option<String>)
        ensures
            ({
                let share = self.config.base_path@ + "/share/"@ + source@;
                match r {
                    Some(rel) => spec_rel_of(path@, share) == Some(rel@),
                    None => spec_rel_of(path@, share) is None,
                }
            }),
    {
        let share = self.share_path(source);
        let share_slash = crate::strutil::concat_str(share.as_str(), "/");
        proof {
            reveal_strlit("/");
        }
        if crate::strutil::str_eq(path, share.as_str()) {
            return Some(String::new());
        }
        if crate::strutil::starts_with_str(path, share_slash.as_str()) {
            let n = path.unicode_len();
            let p = share_slash.as_str().unicode_len();
            let rel = path.substring_char(p, n);
            return Some(String::from_str(rel));
        }
        None
    }

    /// The admission decision for an event: the relative path under the
    /// source's share tree, provided it stays inside the tree and is not
    /// ignored.  Everything else is dropped.
    pub fn preprocess_event(&self, path: &str, source: &str) -> (r: Option<String>)
        ensures
            ({
                let share = self.config.base_path@ + "/share/"@ + source@;
                match r {
                    Some(rel) => spec_rel_of(path@, share) == Some(rel@) && spec_safe_rel_path(
                        rel@,
                    ) && !spec_should_ignore(self.config.scanning, path@, rel@),
                    None => match spec_rel_of(path@, share) {
                        Some(rel) => !spec_safe_rel_path(rel) || spec_should_ignore(
                            self.config.scanning,
                            path@,
                            rel,
                        ),
                        None => true,
                    },
                }
            }),
    {
        match self.relative_to_share(path, source) {
            Some(rel) => {
                if !Self::is_safe_relative_path(rel.as_str()) {
                    return None;
                }
                if self.should_ignore(path, rel.as_str()) {
                    return None;
                }
                Some(rel)
            },
            None => None,
        }
    }
}

/// The relative path of `path` under the tree root `share`: the remainder
/// after `share` and a slash, the empty path for the root itself, nothing
/// when `path` does not lie under `share`.
pub open spec fn spec_rel_of(path: Seq<char>, share: Seq<char>) -> Option<Seq<char>> {
    if path == share {
        Some(Seq::<char>::empty())
    } else if has_prefix(path, share + "/"@) {
        Some(path.subrange(share.len() as int + 1, path.len() as int))
    } else {
        None
    }
}

/// The filename part of a path: the text after the last `/`.
pub fn filename_of(path: &str) -> (r: &str)
    ensures
        r@ == spec_filename(path@),
{
    let n = path.unicode_len();
    match crate::strutil::last_index_of(path, '/') {
        Some(i) => {
            proof {
                reveal_strlit("/");
                assert("/"@ =~= seq!['/']);
                lemma_last_slash(path@, i as int);
            }
            path.substring_char(i + 1, n)
        },
        None => {
            proof {
                reveal_strlit("/");
                assert("/"@ =~= seq!['/']);
                lemma_no_slash(path@);
            }
            path
        },
    }
}

proof fn lemma_last_slash(s: Seq<char>, i: int)
    requires
        0 <= i < s.len(),
        s[i] == '/',
        forall|k: int| i < k < s.len() ==> s[k] != '/',
        "/"@ == seq!['/'],
    ensures
        crate::scanner::find_last(s, "/"@) == Some(i),
{
    assert(crate::strutil::matches_at(s, "/"@, i)) by {
        assert(s.subrange(i, i + 1) =~= seq!['/']);
    }
    lemma_find_last_down(s, s.len() - 1, i);
}

proof fn lemma_find_last_down(s: Seq<char>, j: int, i: int)
    requires
        "/"@ == seq!['/'],
        0 <= i <= j < s.len(),
        s[i] == '/',
        forall|k: int| i < k < s.len() ==> s[k] != '/',
    ensures
        crate::scanner::find_last_from(s, "/"@, j) == Some(i),
    decreases j,
{
    if j > i {
        assert(!crate::strutil::matches_at(s, "/"@, j)) by {
            assert(s.subrange(j, j + 1)[0] == s[j]);
        }
        lemma_find_last_down(s, j - 1, i);
    } else {
        assert(crate::strutil::matches_at(s, "/"@, i)) by {
            assert(s.subrange(i, i + 1) =~= seq!['/']);
        }
    }
}

proof fn lemma_no_slash(s: Seq<char>)
    requires
        forall|k: int| 0 <= k < s.len() ==> s[k] != '/',
        "/"@ == seq!['/'],
    ensures
        crate::scanner::find_last(s, "/"@) is None,
{
    lemma_no_slash_from(s, s.len() - 1);
}

proof fn lemma_no_slash_from(s: Seq<char>, j: int)
    requires
        forall|k: int| 0 <= k < s.len() ==> s[k] != '/',
        "/"@ == seq!['/'],
        j < s.len(),
    ensures
        crate::scanner::find_last_from(s, "/"@, j) is None,
    decreases j + 1,
{
    if j >= 0 {
        assert(!crate::strutil::matches_at(s, "/"@, j)) by {
            assert(s.subrange(j, j + 1)[0] == s[j]);
        }
        lemma_no_slash_from(s, j - 1);
    }
}

/// Whether a file must be sent to the scanner: only when scanning is on
/// and the file is not empty.  Empty files publish immediately.
pub fn needs_scan(scanning: &ScanningConfig, size: u64) -> (r: bool)
    ensures
        r == (scanning.enable && size > 0),
{
    scanning.enable && size > 0
}

/// Map the scanner's answer to an action: Clean publishes the staged
/// bytes; Infected follows the configured action; Error counts as Clean
/// on a permissive channel and as Infected otherwise; NotFound drops the
/// event.
pub fn verdict_action(scanning: &ScanningConfig, verdict: &ScanResult) -> (r: VerdictAction)
    ensures
        verdict is Clean ==> r == VerdictAction::Publish,
        verdict is Error && scanning.permissive ==> r == VerdictAction::Publish,
        (verdict is Infected || (verdict is Error && !scanning.permissive)) ==> match scanning.infected_action {
            InfectedAction::Log => r == VerdictAction::LogOnly,
            InfectedAction::Delete => r == VerdictAction::DeleteSource,
            InfectedAction::Quarantine => r == VerdictAction::QuarantineThenDelete,
        },
        verdict is NotFound ==> r == VerdictAction::Drop,
{
    match verdict {
        ScanResult::Clean => VerdictAction::Publish,
        ScanResult::Error => {
            if scanning.permissive {
                VerdictAction::Publish
            } else {
                match scanning.infected_action {
                    InfectedAction::Log => VerdictAction::LogOnly,
                    InfectedAction::Delete => VerdictAction::DeleteSource,
                    InfectedAction::Quarantine => VerdictAction::QuarantineThenDelete,
                }
            }
        },
        ScanResult::Infected(_) => match scanning.infected_action {
            InfectedAction::Log => VerdictAction::LogOnly,
            InfectedAction::Delete => VerdictAction::DeleteSource,
            InfectedAction::Quarantine => VerdictAction::QuarantineThenDelete,
        },
        ScanResult::NotFound => VerdictAction::Drop,
    }
}

/// The permissions and ownership for an installed copy: the source's mode
/// masked to the low nine bits with the same owner, or `000` and root for
/// a quarantined copy.
pub fn install_metadata(src: Option<&FileMeta>) -> (r: InstallMeta)
    ensures
        match src {
            Some(m) => r.mode == m.mode & 0o777 && r.uid == m.uid && r.gid == m.gid,
            None => r == (InstallMeta { mode: 0u32, uid: 0u32, gid: 0u32 }),
        },
{
    match src {
        Some(m) => InstallMeta { mode: m.mode & 0o777, uid: m.uid, gid: m.gid },
        None => InstallMeta { mode: 0, uid: 0, gid: 0 },
    }
}

/// Installed copies never carry setuid, setgid or sticky bits, and the
/// mode always fits in the low nine bits.
pub proof fn lemma_install_mode_masked(mode: u32)
    ensures
        (mode & 0o777) & 0o7000 == 0,
        mode & 0o777 <= 0o777,
{
    assert((mode & 0o777) & 0o7000 == 0) by (bit_vector);
    assert(mode & 0o777 <= 0o777) by (bit_vector);
}

/// Producer `k` receives a copy of a clean file from `source`: it is a
/// real producer other than the source, it is not a diode producer, and,
/// when the source is a diode producer, the target does not already exist
/// (a diode never overwrites a peer's local edits).
pub open spec fn peer_receives(
    config: ChannelConfig,
    source: Seq<char>,
    peer_exists: Seq<bool>,
    k: int,
) -> bool {
    &&& 0 <= k < config.producers@.len()
    &&& config.producers@[k]@ != source
    &&& !contains_string(config.diode_producers@, config.producers@[k]@)
    &&& !(contains_string(config.diode_producers@, source) && peer_exists[k])
}

/// The indices of the producers that receive a copy, in producer order.
pub open spec fn receiving_idxs(
    config: ChannelConfig,
    source: Seq<char>,
    peer_exists: Seq<bool>,
) -> Seq<int> {
    Seq::new(config.producers@.len(), |k: int| k).filter(
        |k: int| peer_receives(config, source, peer_exists, k),
    )
}

/// The export tree receives a copy: consumers exist and, when the source
/// is a diode producer, export does not already hold the path.
pub open spec fn export_receives(
    config: ChannelConfig,
    source: Seq<char>,
    export_exists: bool,
) -> bool {
    config.consumers@.len() > 0 && !(contains_string(config.diode_producers@, source)
        && export_exists)
}

/// Producer `k` is touched by a deletion from `source`: any real producer
/// other than the source that is not a diode producer.
pub open spec fn peer_deletes(config: ChannelConfig, source: Seq<char>, k: int) -> bool {
    &&& 0 <= k < config.producers@.len()
    &&& config.producers@[k]@ != source
    &&& !contains_string(config.diode_producers@, config.producers@[k]@)
}

/// The indices of the producers a deletion reaches, in producer order.
pub open spec fn deleting_idxs(config: ChannelConfig, source: Seq<char>) -> Seq<int> {
    Seq::new(config.producers@.len(), |k: int| k).filter(
        |k: int| peer_deletes(config, source, k),
    )
}

/// The planned installs of `r` are exactly one per receiving peer, in
/// producer order, at `<base>/share/<peer>/<rel>`, followed by one for
/// export at `<base>/export/<rel>` when export receives.
pub open spec fn install_plan_matches(
    config: ChannelConfig,
    source: Seq<char>,
    rel: Seq<char>,
    peer_exists: Seq<bool>,
    export_exists: bool,
    r: Seq<InstallOp>,
) -> bool {
    let idxs = receiving_idxs(config, source, peer_exists);
    let ecnt: int = if export_receives(config, source, export_exists) {
        1int
    } else {
        0int
    };
    &&& r.len() == idxs.len() + ecnt
    &&& (forall|j: int|
        0 <= j < idxs.len() ==> (#[trigger] r[j]).dest == Destination::Peer(
            config.producers@[idxs[j]],
        ) && r[j].target_path@ == config.base_path@ + "/share/"@ + config.producers@[idxs[j]]@
            + "/"@ + rel)
    &&& (ecnt == 1 ==> r.last().dest == Destination::Export && r.last().target_path@
        == config.base_path@ + "/export/"@ + rel)
}

/// The planned deletions of `r` are exactly one per reachable peer, in
/// producer order, followed by one for export when consumers exist.
pub open spec fn delete_plan_matches(
    config: ChannelConfig,
    source: Seq<char>,
    rel: Seq<char>,
    r: Seq<DeleteOp>,
) -> bool {
    let idxs = deleting_idxs(config, source);
    let ecnt: int = if config.consumers@.len() > 0 {
        1int
    } else {
        0int
    };
    &&& r.len() == idxs.len() + ecnt
    &&& (forall|j: int|
        0 <= j < idxs.len() ==> (#[trigger] r[j]).dest == Destination::Peer(
            config.producers@[idxs[j]],
        ) && r[j].target_path@ == config.base_path@ + "/share/"@ + config.producers@[idxs[j]]@
            + "/"@ + rel)
    &&& (ecnt == 1 ==> r.last().dest == Destination::Export && r.last().target_path@
        == config.base_path@ + "/export/"@ + rel)
}

impl ChannelHandler {
    /// Plan the publication of a clean staged file: where clones of the
    /// scanned bytes are installed.  `peer_exists` and `export_exists` say
    /// which target paths already exist (probed by the caller); they only
    /// matter when the source is a diode producer.
    pub fn plan_publish(
        &self,
        source: &str,
        rel: &str,
        peer_exists: &Vec<bool>,
        export_exists: bool,
    ) -> (r: Vec<InstallOp>)
        requires
            peer_exists@.len() == self.config.producers@.len(),
        ensures
            install_plan_matches(
                self.config,
                source@,
                rel@,
                peer_exists@,
                export_exists,
                r@,
            ),
    {
        let is_diode_source = self.config.is_diode(source);
        let mut r: Vec<InstallOp> = Vec::new();
        let n = self.config.producers.len();
        let mut k: usize = 0;
        while k < n
            invariant
                n == self.config.producers@.len(),
                n == peer_exists@.len(),
                0 <= k <= n,
                is_diode_source == contains_string(self.config.diode_producers@, source@),
                ({
                    let idxs = Seq::new(k as nat, |i: int| i).filter(
                        |i: int| peer_receives(self.config, source@, peer_exists@, i),
                    );
                    &&& r@.len() == idxs.len()
                    &&& (forall|j: int|
                        0 <= j < idxs.len() ==> (#[trigger] r@[j]).dest == Destination::Peer(
                            self.config.producers@[idxs[j]],
                        ) && r@[j].target_path@ == self.config.base_path@ + "/share/"@
                            + self.config.producers@[idxs[j]]@ + "/"@ + rel@)
                }),
            decreases n - k,
        {
            proof {
                reveal(Seq::filter);
                assert(Seq::new((k + 1) as nat, |i: int| i).drop_last() =~= Seq::new(
                    k as nat,
                    |i: int| i,
                ));
            }
            let p = self.config.producers[k].clone();
            let takes = !crate::strutil::str_eq(p.as_str(), source) && !self.config.is_diode(
                p.as_str(),
            ) && !(is_diode_source && peer_exists[k]);
            if takes {
                let mut target = self.share_path(p.as_str());
                target.append("/");
                target.append(rel);
                r.push(InstallOp { dest: Destination::Peer(p), target_path: target });
            }
            k = k + 1;
        }
        proof {
            assert(Seq::new(n as nat, |i: int| i) =~= Seq::new(
                self.config.producers@.len(),
                |i: int| i,
            ));
        }
        if self.config.consumers.len() > 0 && !(is_diode_source && export_exists) {
            let mut target = self.export_path();
            target.append("/");
            target.append(rel);
            proof {
                reveal_strlit("/export");
                reveal_strlit("/");
                reveal_strlit("/export/");
                assert(("/export"@ + "/"@) =~= "/export/"@);
                assert(target@ =~= self.config.base_path@ + "/export/"@ + rel@);
            }
            r.push(InstallOp { dest: Destination::Export, target_path: target });
        }
        r
    }

    /// Plan the propagation of a deletion: the same relative path is
    /// removed from every non-diode peer and, when consumers exist, from
    /// export.  Missing targets are fine; the caller ignores them.
    pub fn plan_deleted(&self, source: &str, rel: &str) -> (r: Vec<DeleteOp>)
        ensures
            delete_plan_matches(self.config, source@, rel@, r@),
    {
        let mut r: Vec<DeleteOp> = Vec::new();
        let n = self.config.producers.len();
        let mut k: usize = 0;
        while k < n
            invariant
                n == self.config.producers@.len(),
                0 <= k <= n,
                ({
                    let idxs = Seq::new(k as nat, |i: int| i).filter(
                        |i: int| peer_deletes(self.config, source@, i),
                    );
                    &&& r@.len() == idxs.len()
                    &&& (forall|j: int|
                        0 <= j < idxs.len() ==> (#[trigger] r@[j]).dest == Destination::Peer(
                            self.config.producers@[idxs[j]],
                        ) && r@[j].target_path@ == self.config.base_path@ + "/share/"@
                            + self.config.producers@[idxs[j]]@ + "/"@ + rel@)
                }),
            decreases n - k,
        {
            proof {
                reveal(Seq::filter);
                assert(Seq::new((k + 1) as nat, |i: int| i).drop_last() =~= Seq::new(
                    k as nat,
                    |i: int| i,
                ));
            }
            let p = self.config.producers[k].clone();
            let takes = !crate::strutil::str_eq(p.as_str(), source) && !self.config.is_diode(
                p.as_str(),
            );
            if takes {
                let mut target = self.share_path(p.as_str());
                target.append("/");
                target.append(rel);
                r.push(DeleteOp { dest: Destination::Peer(p), target_path: target });
            }
            k = k + 1;
        }
        proof {
            assert(Seq::new(n as nat, |i: int| i) =~= Seq::new(
                self.config.producers@.len(),
                |i: int| i,
            ));
        }
        if self.config.consumers.len() > 0 {
            let mut target = self.export_path();
            target.append("/");
            target.append(rel);
            proof {
                reveal_strlit("/export");
                reveal_strlit("/");
                reveal_strlit("/export/");
                assert(("/export"@ + "/"@) =~= "/export/"@);
                assert(target@ =~= self.config.base_path@ + "/export/"@ + rel@);
            }
            r.push(DeleteOp { dest: Destination::Export, target_path: target });
        }
        r
    }

    /// Plan a rename: the old relative path is deleted from peers and
    /// export, then the new path is installed exactly as a clean publish
    /// of the already-scanned content — no rescan, the bytes are
    /// unchanged.
    pub fn plan_renamed(
        &self,
        source: &str,
        old_rel: &str,
        new_rel: &str,
        peer_exists: &Vec<bool>,
        export_exists: bool,
    ) -> (r: (Vec<DeleteOp>, Vec<InstallOp>))
        requires
            peer_exists@.len() == self.config.producers@.len(),
        ensures
            delete_plan_matches(self.config, source@, old_rel@, r.0@),
            install_plan_matches(
                self.config,
                source@,
                new_rel@,
                peer_exists@,
                export_exists,
                r.1@,
            ),
    {
        let deletes = self.plan_deleted(source, old_rel);
        let installs = self.plan_publish(source, new_rel, peer_exists, export_exists);
        (deletes, installs)
    }

    /// The quarantine target for an infected file: `<base>/quarantine/<rel>`.
    pub fn quarantine_target(&self, rel: &str) -> (r: String)
        ensures
            r@ == self.config.base_path@ + "/quarantine/"@ + rel@,
    {
        let mut s = self.quarantine_path();
        s.append("/");
        s.append(rel);
        proof {
            reveal_strlit("/quarantine");
            reveal_strlit("/");
            reveal_strlit("/quarantine/");
            assert(("/quarantine"@ + "/"@) =~= "/quarantine/"@);
            assert(s@ =~= self.config.base_path@ + "/quarantine/"@ + rel@);
        }
        s
    }

    /// The directories the pre-flight self-test must be able to clone
    /// into from staging: every producer share tree, export when consumers
    /// exist, and quarantine.
    pub fn preflight_targets(&self) -> (r: Vec<String>)
        ensures
            ({
                let n = self.config.producers@.len() as int;
                let ecnt: int = if self.config.consumers@.len() > 0 {
                    1int
                } else {
                    0int
                };
                &&& r@.len() == n + ecnt + 1
                &&& (forall|k: int|
                    0 <= k < n ==> (#[trigger] r@[k])@ == self.config.base_path@ + "/share/"@
                        + self.config.producers@[k]@)
                &&& (ecnt == 1 ==> r@[n]@ == self.config.base_path@ + "/export"@)
                &&& r@.last()@ == self.config.base_path@ + "/quarantine"@
            }),
    {
        let mut r: Vec<String> = Vec::new();
        let n = self.config.producers.len();
        let mut k: usize = 0;
        while k < n
            invariant
                n == self.config.producers@.len(),
                0 <= k <= n,
                r@.len() == k,
                forall|j: int|
                    0 <= j < k ==> (#[trigger] r@[j])@ == self.config.base_path@ + "/share/"@
                        + self.config.producers@[j]@,
            decreases n - k,
        {
            r.push(self.share_path(self.config.producers[k].as_str()));
            k = k + 1;
        }
        if self.config.consumers.len() > 0 {
            r.push(self.export_path());
        }
        r.push(self.quarantine_path());
        r
    }
}

/// No planned install ever lands in a diode producer's share tree, nor
/// back in the source's own tree: every receiving peer is a non-diode
/// producer other than the source.
pub proof fn lemma_diode_never_receives(
    config: ChannelConfig,
    source: Seq<char>,
    peer_exists: Seq<bool>,
)
    ensures
        forall|j: int|
            0 <= j < receiving_idxs(config, source, peer_exists).len() ==> {
                let k = #[trigger] receiving_idxs(config, source, peer_exists)[j];
                &&& 0 <= k < config.producers@.len()
                &&& !contains_string(config.diode_producers@, config.producers@[k]@)
                &&& config.producers@[k]@ != source
            },
{
    let all = Seq::new(config.producers@.len(), |k: int| k);
    let pred = |k: int| peer_receives(config, source, peer_exists, k);
    assert forall|j: int|
        0 <= j < receiving_idxs(config, source, peer_exists).len() implies {
        let k = #[trigger] receiving_idxs(config, source, peer_exists)[j];
        &&& 0 <= k < config.producers@.len()
        &&& !contains_string(config.diode_producers@, config.producers@[k]@)
        &&& config.producers@[k]@ != source
    } by {
        all.lemma_filter_pred(pred, j);
    }
}

} // verus!
