//! Shared pieces of the daemons: the action taken on infected files, the
//! shutdown signal kinds, well-known paths, and the user-notification
//! message texts.  Delivery of the messages is socket I/O and lives with the
//! binaries; the texts themselves are specified here.

use vstd::prelude::*;

use crate::strutil::ci_eq_seq;
use crate::strutil::ci_eq_str;

verus! {

/// Default socket path for user (desktop) notifications.
pub fn default_notify_socket() -> (r: String)
    ensures
        r@ == "/run/clamav/notify.sock"@,
{
    String::from_str("/run/clamav/notify.sock")
}

/// Hidden marker file toggled in guests to make file browsers refresh.
pub fn refresh_trigger_file() -> (r: &'static str)
    ensures
        r@ == ".virtiofs-refresh"@,
{
    ".virtiofs-refresh"
}

/// Shutdown signal received by a daemon.
#[derive(Debug, Clone, Copy)]
pub enum ShutdownSignal {
    Sigint,
    Sigterm,
}

/// Action to take when an infected file is detected.
#[derive(Debug, Clone, Copy, PartialEq, Eq, Structural)]
pub enum InfectedAction {
    /// Log the infection but take no action on the file.
    Log,
    /// Delete the infected file.
    Delete,
    /// Move the infected file to a quarantine directory.
    Quarantine,
}

impl Default for InfectedAction {
    /// The default action is to delete the infected file.
    fn default() -> (r: Self)
        ensures
            r == InfectedAction::Delete,
    {
        InfectedAction::Delete
    }
}

impl InfectedAction {
    /// The lower-case name of the action.
    pub fn as_str(&self) -> (r: &'static str)
        ensures
            *self == InfectedAction::Log ==> r@ == "log"@,
            *self == InfectedAction::Delete ==> r@ == "delete"@,
            *self == InfectedAction::Quarantine ==> r@ == "quarantine"@,
    {
        match self {
            InfectedAction::Log => "log",
            InfectedAction::Delete => "delete",
            InfectedAction::Quarantine => "quarantine",
        }
    }

    /// Parse an action name, ignoring ASCII case.
    pub fn from_str(s: &str) -> (r: Result<Self, String>)
        ensures
            r == Ok::<Self, String>(InfectedAction::Log) <==> ci_eq_seq(s@, "log"@),
            r == Ok::<Self, String>(InfectedAction::Delete) <==> ci_eq_seq(s@, "delete"@),
            r == Ok::<Self, String>(InfectedAction::Quarantine) <==> ci_eq_seq(
                s@,
                "quarantine"@,
            ),
            r.is_err() <==> !ci_eq_seq(s@, "log"@) && !ci_eq_seq(s@, "delete"@) && !ci_eq_seq(
                s@,
                "quarantine"@,
            ),
    {
        proof {
            reveal_strlit("log");
            reveal_strlit("delete");
            reveal_strlit("quarantine");
        }
        if ci_eq_str(s, "log") {
            Ok(InfectedAction::Log)
        } else if ci_eq_str(s, "delete") {
            Ok(InfectedAction::Delete)
        } else if ci_eq_str(s, "quarantine") {
            Ok(InfectedAction::Quarantine)
        } else {
            let mut msg = String::from_str("Invalid action: ");
            msg.append(s);
            msg.append(". Use: log, delete, quarantine");
            Err(msg)
        }
    }
}

/// The user-notification line for an infected file:
/// `Malware <virus_name> was detected in file: <file_path>`.
pub fn notify_infected(file_path: &str, virus_name: &str) -> (r: String)
    ensures
        r@ == "Malware "@ + virus_name@ + " was detected in file: "@ + file_path@,
{
    let mut msg = String::from_str("Malware ");
    msg.append(virus_name);
    msg.append(" was detected in file: ");
    msg.append(file_path);
    msg
}

/// The user-notification line for a scan error:
/// `Scan error for file <file_path>: <error>`.
pub fn notify_error(file_path: &str, error: &str) -> (r: String)
    ensures
        r@ == "Scan error for file "@ + file_path@ + ": "@ + error@,
{
    let mut msg = String::from_str("Scan error for file ");
    msg.append(file_path);
    msg.append(": ");
    msg.append(error);
    msg
}

/// Parse one `channel=path` mapping as given on the refresh receiver's
/// command line: split at the first `=`; both sides may be empty.
pub fn parse_mapping(s: &str) -> (r: Result<(String, String), String>)
    ensures
        match r {
            Ok((channel, path)) => exists|i: int|
                0 <= i < s@.len() && s@[i] == '=' && (forall|k: int| 0 <= k < i ==> s@[k] != '=')
                    && channel@ == s@.subrange(0, i) && path@ == s@.subrange(
                    i + 1,
                    s@.len() as int,
                ),
            Err(_) => forall|k: int| 0 <= k < s@.len() ==> s@[k] != '=',
        },
{
    let n = s.unicode_len();
    match crate::strutil::first_index_of(s, '=') {
        Some(i) => {
            let channel = s.substring_char(0, i);
            let path = s.substring_char(i + 1, n);
            Ok((String::from_str(channel), String::from_str(path)))
        },
        None => {
            let mut msg = String::from_str("Invalid mapping format: ");
            msg.append(s);
            msg.append(" (expected channel=path)");
            Err(msg)
        },
    }
}

} // verus!
