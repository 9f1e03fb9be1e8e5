//! Channel configuration: the per-channel knobs, their defaults, and the
//! startup validation rules.
//!
//! Reading the configuration file and probing the filesystem are I/O and
//! live with the binaries; they hand the directory facts in as a
//! [`DirChecks`] value, and the validation decision itself is specified
//! here.

use vstd::prelude::*;

use crate::strutil::contains_string;
use crate::strutil::str_eq;
use crate::strutil::vec_contains_str;
use crate::util::InfectedAction;

verus! {

/// Default for boolean knobs that are on unless switched off.
pub fn default_enable() -> (r: bool)
    ensures
        r,
{
    true
}

/// Default socket path for user notifications.
pub fn default_user_notify_socket() -> (r: String)
    ensures
        r@ == "/run/clamav/notify.sock"@,
{
    String::from_str("/run/clamav/notify.sock")
}

/// Default vsock port for guest notifications.
pub fn default_notify_port() -> (r: u32)
    ensures
        r == 3401u32,
{
    3401
}

/// Default debounce duration in milliseconds.
pub fn default_debounce_ms() -> (r: u64)
    ensures
        r == 1000u64,
{
    1000
}

/// Scanning configuration for a channel.
#[derive(Debug, Clone)]
pub struct ScanningConfig {
    /// Enable virus scanning for this channel; when off, every file is
    /// treated as clean.
    pub enable: bool,
    /// Action to take on infected files.
    pub infected_action: InfectedAction,
    /// Permissive mode: treat scan errors as clean rather than infected.
    pub permissive: bool,
    /// Filename substrings to ignore, matched against the filename only.
    pub ignore_file_patterns: Vec<String>,
    /// Path substrings to ignore, matched against the whole relative path.
    pub ignore_path_patterns: Vec<String>,
}

impl Default for ScanningConfig {
    /// Scanning on, infected files deleted, fail-safe, nothing ignored.
    fn default() -> (r: Self)
        ensures
            r.enable,
            r.infected_action == InfectedAction::Delete,
            !r.permissive,
            r.ignore_file_patterns@.len() == 0,
            r.ignore_path_patterns@.len() == 0,
    {
        ScanningConfig {
            enable: true,
            infected_action: InfectedAction::Delete,
            permissive: false,
            ignore_file_patterns: Vec::new(),
            ignore_path_patterns: Vec::new(),
        }
    }
}

/// User notification configuration for malware alerts.
#[derive(Debug, Clone)]
pub struct UserNotifyConfig {
    /// Enable user notifications for this channel.
    pub enable: bool,
    /// Socket path the notifications are written to.
    pub socket: String,
}

impl Default for UserNotifyConfig {
    /// Notifications on, at the default socket path.
    fn default() -> (r: Self)
        ensures
            r.enable,
            r.socket@ == "/run/clamav/notify.sock"@,
    {
        UserNotifyConfig { enable: true, socket: default_user_notify_socket() }
    }
}

/// Guest VM notification configuration (file browser refresh over vsock).
#[derive(Debug, Clone)]
pub struct GuestNotifyConfig {
    /// Guest VM CIDs to notify about file changes.
    pub guests: Vec<u32>,
    /// Vsock port for notifications.
    pub port: u32,
}

/// What a filesystem probe found at a configured path.
#[derive(Debug, Clone, Copy, PartialEq, Eq, Structural)]
pub enum PathKind {
    /// Nothing exists at the path.
    Missing,
    /// The path exists and is a directory.
    Dir,
    /// The path exists but is not a directory.
    Other,
}

/// Filesystem facts needed to validate one channel, gathered by the caller:
/// what stands at the base path, its `share`, `export` and `quarantine`
/// children, and each per-producer share directory (in producer order).
#[derive(Debug, Clone)]
pub struct DirChecks {
    pub base: PathKind,
    pub share: PathKind,
    pub export: PathKind,
    pub quarantine: PathKind,
    pub producer_dirs: Vec<PathKind>,
}

/// Configuration for a single sharing channel.
#[derive(Debug, Clone)]
pub struct ChannelConfig {
    /// Base path containing `share/`, `export/`, `staging/`, `quarantine/`.
    pub base_path: String,
    /// Producer VMs that write files to this channel.
    pub producers: Vec<String>,
    /// Consumer VMs that read files read-only through `export/`.
    pub consumers: Vec<String>,
    /// Producers operating in diode mode (write-only, never written to).
    /// Must be a subset of `producers`.
    pub diode_producers: Vec<String>,
    /// Debounce duration in milliseconds.
    pub debounce_ms: u64,
    /// Scanning configuration.
    pub scanning: ScanningConfig,
    /// User notification configuration for malware alerts.
    pub user_notify: UserNotifyConfig,
    /// Guest VM notification configuration, if enabled.
    pub guest_notify: Option<GuestNotifyConfig>,
}

/// All conditions a channel must meet to be accepted: the base, share and
/// per-producer directories exist as directories, export exists when there
/// are consumers, quarantine exists when the infected action needs it, at
/// least one producer is configured, and every diode producer is a producer.
pub open spec fn spec_channel_valid(c: ChannelConfig, d: DirChecks) -> bool {
    &&& d.base == PathKind::Dir
    &&& d.share == PathKind::Dir
    &&& (c.consumers@.len() > 0 ==> d.export == PathKind::Dir)
    &&& (forall|i: int|
        0 <= i < d.producer_dirs@.len() ==> d.producer_dirs@[i] == PathKind::Dir)
    &&& (c.scanning.infected_action == InfectedAction::Quarantine ==> d.quarantine
        == PathKind::Dir)
    &&& c.producers@.len() > 0
    &&& (forall|i: int|
        0 <= i < c.diode_producers@.len() ==> contains_string(
            c.producers@,
            c.diode_producers@[i]@,
        ))
}

impl ChannelConfig {
    /// Validate the channel against the directory facts the caller probed.
    /// Returns the list of configuration errors, or nothing when the
    /// channel is ready for operation.
    pub fn validate(&self, dirs: &DirChecks) -> (r: Result<(), Vec<String>>)
        requires
            dirs.producer_dirs@.len() == self.producers@.len(),
        ensures
            r is Ok <==> spec_channel_valid(*self, *dirs),
            r matches Err(errs) ==> errs@.len() > 0,
    {
        let mut errors: Vec<String> = Vec::new();

        let base_ok = matches!(dirs.base, PathKind::Dir);
        if matches!(dirs.base, PathKind::Missing) {
            errors.push(String::from_str("Base path does not exist"));
        } else if matches!(dirs.base, PathKind::Other) {
            errors.push(String::from_str("Base path is not a directory"));
        }

        let share_ok = matches!(dirs.share, PathKind::Dir);
        if matches!(dirs.share, PathKind::Missing) {
            errors.push(String::from_str("Required 'share' directory does not exist"));
        } else if matches!(dirs.share, PathKind::Other) {
            errors.push(String::from_str("'share' path exists but is not a directory"));
        }

        let export_ok = self.consumers.len() == 0 || matches!(dirs.export, PathKind::Dir);
        if self.consumers.len() > 0 {
            if matches!(dirs.export, PathKind::Missing) {
                errors.push(String::from_str("Required 'export' directory does not exist"));
            } else if matches!(dirs.export, PathKind::Other) {
                errors.push(String::from_str("'export' path exists but is not a directory"));
            }
        }

        let n = self.producers.len();
        let mut i: usize = 0;
        let mut producers_ok = true;
        while i < n
            invariant
                n == self.producers@.len(),
                n == dirs.producer_dirs@.len(),
                0 <= i <= n,
                producers_ok <==> (forall|k: int|
                    0 <= k < i ==> dirs.producer_dirs@[k] == PathKind::Dir),
                errors@.len() == 0 <==> base_ok && share_ok && export_ok && producers_ok,
            decreases n - i,
        {
            match dirs.producer_dirs[i] {
                PathKind::Missing => {
                    let mut msg = String::from_str("'share/");
                    msg.append(self.producers[i].as_str());
                    msg.append("' does not exist");
                    errors.push(msg);
                    producers_ok = false;
                },
                PathKind::Other => {
                    let mut msg = String::from_str("'share/");
                    msg.append(self.producers[i].as_str());
                    msg.append("' exists but is not a directory");
                    errors.push(msg);
                    producers_ok = false;
                },
                PathKind::Dir => {},
            }
            i = i + 1;
        }

        let quarantine_ok = !matches!(self.scanning.infected_action, InfectedAction::Quarantine)
            || matches!(dirs.quarantine, PathKind::Dir);
        if matches!(self.scanning.infected_action, InfectedAction::Quarantine) {
            if matches!(dirs.quarantine, PathKind::Missing) {
                errors.push(
                    String::from_str(
                        "Required 'quarantine' directory does not exist (infectedAction=quarantine)",
                    ),
                );
            } else if matches!(dirs.quarantine, PathKind::Other) {
                errors.push(
                    String::from_str("'quarantine' path exists but is not a directory"),
                );
            }
        }

        let has_producers = self.producers.len() > 0;
        if !has_producers {
            errors.push(String::from_str("Channel has no producers defined"));
        }

        let dn = self.diode_producers.len();
        let mut j: usize = 0;
        let mut diodes_ok = true;
        while j < dn
            invariant
                dn == self.diode_producers@.len(),
                0 <= j <= dn,
                diodes_ok <==> (forall|k: int|
                    0 <= k < j ==> contains_string(self.producers@, self.diode_producers@[k]@)),
                errors@.len() == 0 <==> base_ok && share_ok && export_ok && producers_ok
                    && quarantine_ok && has_producers && diodes_ok,
            decreases dn - j,
        {
            if !vec_contains_str(&self.producers, self.diode_producers[j].as_str()) {
                let mut msg = String::from_str("Diode producer '");
                msg.append(self.diode_producers[j].as_str());
                msg.append("' is not in producers list");
                errors.push(msg);
                diodes_ok = false;
            }
            j = j + 1;
        }

        if errors.len() == 0 {
            Ok(())
        } else {
            Err(errors)
        }
    }

    /// Whether a producer is in diode mode (write-only).
    pub fn is_diode(&self, producer: &str) -> (r: bool)
        ensures
            r == contains_string(self.diode_producers@, producer@),
    {
        vec_contains_str(&self.diode_producers, producer)
    }

    /// The informational lines describing this channel's non-default
    /// settings, one per setting that departs from the usual behaviour, in a
    /// fixed order; the caller logs them.
    pub fn log_config_info(&self, channel_name: &str) -> (r: Vec<String>)
        ensures
            r@.len() == (if !self.scanning.enable {
                1int
            } else {
                0int
            }) + (if self.scanning.permissive {
                1int
            } else {
                0int
            }) + (if !self.user_notify.enable {
                1int
            } else {
                0int
            }) + (if self.diode_producers@.len() > 0 {
                1int
            } else {
                0int
            }) + (if self.scanning.ignore_file_patterns@.len() > 0 {
                1int
            } else {
                0int
            }) + (if self.scanning.ignore_path_patterns@.len() > 0 {
                1int
            } else {
                0int
            }),
    {
        let mut lines: Vec<String> = Vec::new();
        if !self.scanning.enable {
            let mut msg = String::from_str("Channel '");
            msg.append(channel_name);
            msg.append("': scanning disabled (all files treated as clean)");
            lines.push(msg);
        }
        if self.scanning.permissive {
            let mut msg = String::from_str("Channel '");
            msg.append(channel_name);
            msg.append("': permissive mode enabled (scan errors treated as clean)");
            lines.push(msg);
        }
        if !self.user_notify.enable {
            let mut msg = String::from_str("Channel '");
            msg.append(channel_name);
            msg.append("': user notifications disabled");
            lines.push(msg);
        }
        if self.diode_producers.len() > 0 {
            let mut msg = String::from_str("Channel '");
            msg.append(channel_name);
            msg.append("': diode producers configured");
            lines.push(msg);
        }
        if self.scanning.ignore_file_patterns.len() > 0 {
            let mut msg = String::from_str("Channel '");
            msg.append(channel_name);
            msg.append("': ignoring file patterns");
            lines.push(msg);
        }
        if self.scanning.ignore_path_patterns.len() > 0 {
            let mut msg = String::from_str("Channel '");
            msg.append(channel_name);
            msg.append("': ignoring path patterns");
            lines.push(msg);
        }
        lines
    }

    /// When guest notifications are enabled, the hidden refresh marker must
    /// never be propagated: add it to the ignored filename substrings if it
    /// is not there yet.
    pub fn add_refresh_ignore_pattern(&mut self)
        ensures
            ({
                let before = old(self).scanning.ignore_file_patterns@;
                let after = final(self).scanning.ignore_file_patterns@;
                if old(self).guest_notify is Some && !contains_string(
                    before,
                    ".virtiofs-refresh"@,
                ) {
                    after.len() == before.len() + 1 && after.subrange(0, before.len() as int)
                        == before && after.last()@ == ".virtiofs-refresh"@
                } else {
                    after == before
                }
            }),
            final(self).base_path == old(self).base_path,
            final(self).producers == old(self).producers,
            final(self).consumers == old(self).consumers,
            final(self).diode_producers == old(self).diode_producers,
            final(self).debounce_ms == old(self).debounce_ms,
            final(self).scanning.ignore_path_patterns == old(self).scanning.ignore_path_patterns,
            final(self).scanning.enable == old(self).scanning.enable,
            final(self).scanning.infected_action == old(self).scanning.infected_action,
            final(self).scanning.permissive == old(self).scanning.permissive,
            final(self).user_notify == old(self).user_notify,
            final(self).guest_notify == old(self).guest_notify,
    {
        let marker = crate::util::refresh_trigger_file();
        if self.guest_notify.is_some() && !vec_contains_str(
            &self.scanning.ignore_file_patterns,
            marker,
        ) {
            self.scanning.ignore_file_patterns.push(String::from_str(marker));
        }
    }
}

/// The daemon configuration: channels by name, in insertion order.
#[derive(Debug, Clone)]
pub struct Config {
    pub channels: Vec<(String, ChannelConfig)>,
}

impl Config {
    /// An empty configuration.
    pub fn new() -> (r: Config)
        ensures
            r.channels@.len() == 0,
    {
        Config { channels: Vec::new() }
    }

    /// The number of channels.
    pub fn len(&self) -> (r: usize)
        ensures
            r == self.channels@.len(),
    {
        self.channels.len()
    }

    /// Add a channel, replacing an existing channel of the same name.
    pub fn insert(&mut self, name: String, cfg: ChannelConfig)
        ensures
            (forall|i: int|
                0 <= i < old(self).channels@.len() ==> old(self).channels@[i].0@ != name@)
                ==> final(self).channels@ == old(self).channels@.push((name, cfg)),
            (exists|i: int|
                0 <= i < old(self).channels@.len() && old(self).channels@[i].0@ == name@)
                ==> exists|i: int|
                0 <= i < old(self).channels@.len() && old(self).channels@[i].0@ == name@
                    && final(self).channels@ == old(self).channels@.update(i, (name, cfg)),
    {
        let n = self.channels.len();
        let mut i: usize = 0;
        while i < n
            invariant
                n == self.channels@.len(),
                0 <= i <= n,
                self.channels@ == old(self).channels@,
                forall|k: int| 0 <= k < i ==> self.channels@[k].0@ != name@,
            decreases n - i,
        {
            if str_eq(self.channels[i].0.as_str(), name.as_str()) {
                self.channels.set(i, (name, cfg));
                return ;
            }
            i = i + 1;
        }
        self.channels.push((name, cfg));
    }
}

/// No two channels may share a base path.  Paths are compared as written;
/// resolving symlinks is the caller's part.  On conflict the error names the
/// two channels and the conflicting base path.
pub fn validate_unique_base_paths(config: &Config) -> (r: Result<(), String>)
    ensures
        r is Ok <==> (forall|i: int, j: int|
            0 <= i < j < config.channels@.len() ==> config.channels@[i].1.base_path@
                != config.channels@[j].1.base_path@),
{
    let n = config.channels.len();
    let mut j: usize = 0;
    while j < n
        invariant
            n == config.channels@.len(),
            0 <= j <= n,
            forall|a: int, b: int|
                0 <= a < b < j ==> config.channels@[a].1.base_path@
                    != config.channels@[b].1.base_path@,
        decreases n - j,
    {
        let mut i: usize = 0;
        while i < j
            invariant
                n == config.channels@.len(),
                0 <= i <= j < n,
                forall|a: int|
                    0 <= a < i ==> config.channels@[a].1.base_path@
                        != config.channels@[j as int].1.base_path@,
            decreases j - i,
        {
            if str_eq(
                config.channels[i].1.base_path.as_str(),
                config.channels[j].1.base_path.as_str(),
            ) {
                let mut msg = String::from_str("Channels '");
                msg.append(config.channels[i].0.as_str());
                msg.append("' and '");
                msg.append(config.channels[j].0.as_str());
                msg.append("' have conflicting base_path '");
                msg.append(config.channels[j].1.base_path.as_str());
                msg.append("'");
                return Err(msg);
            }
            i = i + 1;
        }
        j = j + 1;
    }
    Ok(())
}

} // verus!
