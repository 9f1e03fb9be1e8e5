//! The guest client's decisions: what to do with a scan verdict, and
//! where a quarantined file lands.
//!
//! Watching, reading and the socket conversation are carried out by the
//! binary; the verdict handling and the quarantine file naming are
//! specified here.

use vstd::prelude::*;

use crate::scanner::ScanResult;
use crate::strutil::dec_rep;
use crate::util::InfectedAction;

verus! {

/// What the guest client does with one scan verdict.
#[derive(Debug, Clone, Copy, PartialEq, Eq, Structural)]
pub enum ClientStep {
    /// Nothing to do (clean, or the file vanished).
    Ignore,
    /// Notify the user and apply the configured infected action.
    HandleInfected,
    /// Notify the user of a scan error.
    NotifyError,
}

/// Decide what a verdict requires: only an infection acts on the file;
/// only a scan error raises an error notification.
pub fn handle_scan_result(result: &ScanResult) -> (r: ClientStep)
    ensures
        result is Clean ==> r == ClientStep::Ignore,
        result is Infected ==> r == ClientStep::HandleInfected,
        result is Error ==> r == ClientStep::NotifyError,
        result is NotFound ==> r == ClientStep::Ignore,
{
    match result {
        ScanResult::Clean => ClientStep::Ignore,
        ScanResult::Infected(_) => ClientStep::HandleInfected,
        ScanResult::Error => ClientStep::NotifyError,
        ScanResult::NotFound => ClientStep::Ignore,
    }
}

/// What the infected action does to the file.
#[derive(Debug, Clone, Copy, PartialEq, Eq, Structural)]
pub enum InfectedStep {
    /// Leave the file; the infection is only logged.
    LogOnly,
    /// Delete the file.
    DeleteFile,
    /// Move the file to the quarantine directory.
    QuarantineFile,
}

/// Apply the configured action: quarantining needs a configured
/// directory, otherwise nothing can be done but logging.
pub fn handle_infected(action: InfectedAction, has_quarantine_dir: bool) -> (r: InfectedStep)
    ensures
        action == InfectedAction::Log ==> r == InfectedStep::LogOnly,
        action == InfectedAction::Delete ==> r == InfectedStep::DeleteFile,
        action == InfectedAction::Quarantine && has_quarantine_dir ==> r
            == InfectedStep::QuarantineFile,
        action == InfectedAction::Quarantine && !has_quarantine_dir ==> r
            == InfectedStep::LogOnly,
{
    match action {
        InfectedAction::Log => InfectedStep::LogOnly,
        InfectedAction::Delete => InfectedStep::DeleteFile,
        InfectedAction::Quarantine => {
            if has_quarantine_dir {
                InfectedStep::QuarantineFile
            } else {
                InfectedStep::LogOnly
            }
        },
    }
}

/// The position of the last `.` in `f`, scanning from `j` down.
pub open spec fn last_dot_from(f: Seq<char>, j: int) -> Option<int>
    decreases j + 1,
{
    if j < 0 {
        None
    } else if f[j] == '.' {
        Some(j)
    } else {
        last_dot_from(f, j - 1)
    }
}

/// The position of the last `.` in `f`, if any.
pub open spec fn last_dot(f: Seq<char>) -> Option<int> {
    last_dot_from(f, f.len() - 1)
}

/// The stem of a filename: everything before the last `.`, unless that
/// dot leads the name (a hidden file has no extension).
pub open spec fn spec_stem(f: Seq<char>) -> Seq<char> {
    match last_dot(f) {
        Some(i) => if i > 0 {
            f.subrange(0, i)
        } else {
            f
        },
        None => f,
    }
}

/// The extension of a filename with its dot: `.` and everything after
/// the last `.`, unless that dot leads the name; empty when there is no
/// extension.
pub open spec fn spec_extdot(f: Seq<char>) -> Seq<char> {
    match last_dot(f) {
        Some(i) => if i > 0 {
            "."@ + f.subrange(i + 1, f.len() as int)
        } else {
            Seq::empty()
        },
        None => Seq::empty(),
    }
}

proof fn lemma_last_dot_some(f: Seq<char>, j: int, i: int)
    requires
        0 <= i <= j < f.len(),
        f[i] == '.',
        forall|k: int| i < k < f.len() ==> f[k] != '.',
    ensures
        last_dot_from(f, j) == Some(i),
    decreases j,
{
    if j > i {
        lemma_last_dot_some(f, j - 1, i);
    }
}

proof fn lemma_last_dot_none(f: Seq<char>, j: int)
    requires
        j < f.len(),
        forall|k: int| 0 <= k < f.len() ==> f[k] != '.',
    ensures
        last_dot_from(f, j) is None,
    decreases j + 1,
{
    if j >= 0 {
        lemma_last_dot_none(f, j - 1);
    }
}

/// The quarantine destination for a source file at a given timestamp:
/// `<qdir>/<stem>_<timestamp><ext>`, with the filename flattened out of
/// its directories and the timestamp keeping repeated quarantines of one
/// name apart.
pub fn quarantine_destination(qdir: &str, source: &str, timestamp: u64) -> (r: String)
    ensures
        ({
            let f = crate::daemon::spec_filename(source@);
            r@ == qdir@ + "/"@ + spec_stem(f) + "_"@ + dec_rep(timestamp as nat) + spec_extdot(f)
        }),
{
    let filename = crate::daemon::filename_of(source);
    let n = filename.unicode_len();
    let mut r = String::from_str(qdir);
    r.append("/");
    match crate::strutil::last_index_of(filename, '.') {
        Some(i) => {
            if i > 0 {
                proof {
                    lemma_last_dot_some(filename@, filename@.len() - 1, i as int);
                }
                let stem = filename.substring_char(0, i);
                let ext = filename.substring_char(i + 1, n);
                r.append(stem);
                r.append("_");
                let ts = crate::strutil::u64_to_string(timestamp);
                r.append(ts.as_str());
                r.append(".");
                r.append(ext);
            } else {
                proof {
                    lemma_last_dot_some(filename@, filename@.len() - 1, i as int);
                }
                r.append(filename);
                r.append("_");
                let ts = crate::strutil::u64_to_string(timestamp);
                r.append(ts.as_str());
            }
        },
        None => {
            proof {
                lemma_last_dot_none(filename@, filename@.len() - 1);
            }
            r.append(filename);
            r.append("_");
            let ts = crate::strutil::u64_to_string(timestamp);
            r.append(ts.as_str());
        },
    }
    r
}

/// Relies on std::time::SystemTime::now: nanoseconds since the Unix
/// epoch, zero when the clock predates it.  The value depends on the
/// clock, so nothing is promised of it.
#[verifier::external_body]
fn now_epoch_nanos() -> u64 {
    std::time::SystemTime::now().duration_since(std::time::UNIX_EPOCH).map(
        |d| d.as_nanos() as u64,
    ).unwrap_or(0)
}

/// A quarantine path unique in practice: the current wall-clock
/// nanoseconds stand between the stem and the extension.
pub fn unique_quarantine_path(qdir: &str, source: &str) -> (r: String)
    ensures
        exists|ts: u64|
            ({
                let f = crate::daemon::spec_filename(source@);
                r@ == qdir@ + "/"@ + spec_stem(f) + "_"@ + #[trigger] dec_rep(ts as nat)
                    + spec_extdot(f)
            }),
{
    let ts = now_epoch_nanos();
    let r = quarantine_destination(qdir, source, ts);
    proof {
        let f = crate::daemon::spec_filename(source@);
        assert(r@ == qdir@ + "/"@ + spec_stem(f) + "_"@ + dec_rep(ts as nat) + spec_extdot(f));
    }
    r
}

} // verus!
