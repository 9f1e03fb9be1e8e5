//! Guest notification targets.
//!
//! When files change in a channel, every subscribed guest VM is sent one
//! line, `<channel>\n`, over a short-lived stream connection.  Opening the
//! connection is I/O and lives with the binaries; which guests are notified
//! for which channel, and the exact message, are specified here.

use vstd::prelude::*;

use crate::config::ChannelConfig;
use crate::config::Config;
use crate::config::GuestNotifyConfig;
use crate::strutil::str_eq;

verus! {

/// Guest VM target for notifications.
#[derive(Debug, Clone, Copy, PartialEq, Eq, Structural)]
pub struct NotifyTarget {
    pub cid: u32,
    pub port: u32,
}

impl NotifyTarget {
    pub fn new(cid: u32, port: u32) -> (r: Self)
        ensures
            r == (NotifyTarget { cid, port }),
    {
        NotifyTarget { cid, port }
    }
}

/// A channel qualifies for guest notification when it names at least one
/// guest.
pub open spec fn notify_qualifies(entry: (String, ChannelConfig)) -> bool {
    match entry.1.guest_notify {
        Some(gn) => gn.guests@.len() > 0,
        None => false,
    }
}

/// The targets `ts` are exactly the guests of `gn`, each on `gn`'s port.
pub open spec fn targets_match(ts: Seq<NotifyTarget>, gn: GuestNotifyConfig) -> bool {
    ts.len() == gn.guests@.len() && forall|k: int|
        0 <= k < ts.len() ==> ts[k] == (NotifyTarget { cid: gn.guests@[k], port: gn.port })
}

/// Notifier for sending file events to guest VMs: a mapping of channel
/// name to the VMs subscribed to it.
#[derive(Debug, Clone)]
pub struct Notifier {
    pub targets: Vec<(String, Vec<NotifyTarget>)>,
}

impl Notifier {
    /// Create a notifier from channel-to-VM mappings.
    pub fn new(targets: Vec<(String, Vec<NotifyTarget>)>) -> (r: Self)
        ensures
            r.targets == targets,
    {
        Notifier { targets }
    }

    /// An empty notifier, for when notifications are disabled.
    pub fn disabled() -> (r: Self)
        ensures
            r.targets@.len() == 0,
    {
        Notifier { targets: Vec::new() }
    }

    /// Whether any channel has notification targets.
    pub fn has_targets(&self) -> (r: bool)
        ensures
            r == (self.targets@.len() > 0),
    {
        self.targets.len() > 0
    }

    /// The targets subscribed to `channel`: those of the first entry with
    /// that name, or none.
    pub fn targets_for(&self, channel: &str) -> (r: Option<&Vec<NotifyTarget>>)
        ensures
            match r {
                Some(ts) => exists|i: int|
                    0 <= i < self.targets@.len() && self.targets@[i].0@ == channel@ && ts
                        == self.targets@[i].1 && forall|k: int|
                        0 <= k < i ==> self.targets@[k].0@ != channel@,
                None => forall|i: int|
                    0 <= i < self.targets@.len() ==> self.targets@[i].0@ != channel@,
            },
    {
        let n = self.targets.len();
        let mut i: usize = 0;
        while i < n
            invariant
                n == self.targets@.len(),
                0 <= i <= n,
                forall|k: int| 0 <= k < i ==> self.targets@[k].0@ != channel@,
            decreases n - i,
        {
            if str_eq(self.targets[i].0.as_str(), channel) {
                return Some(&self.targets[i].1);
            }
            i = i + 1;
        }
        None
    }

    /// The one-line wire message for a channel: the channel name followed
    /// by a newline.
    pub fn message_for(channel: &str) -> (r: String)
        ensures
            r@ == channel@ + "\n"@,
    {
        crate::strutil::concat_str(channel, "\n")
    }
}

/// Build the notifier from the channel configurations: one entry per
/// channel that names at least one guest, in channel order, carrying one
/// target per guest on the channel's port.
pub fn build_notifier(config: &Config) -> (r: Notifier)
    ensures
        r.targets@.len() == config.channels@.filter(|e: (String, ChannelConfig)|
            notify_qualifies(e)).len(),
        forall|j: int|
            0 <= j < r.targets@.len() ==> {
                let qual = config.channels@.filter(|e: (String, ChannelConfig)|
                    notify_qualifies(e));
                (#[trigger] r.targets@[j]).0@ == qual[j].0@ && (qual[j].1.guest_notify
                    matches Some(gn) && targets_match(r.targets@[j].1@, gn))
            },
{
    let mut targets: Vec<(String, Vec<NotifyTarget>)> = Vec::new();
    let n = config.channels.len();
    let mut i: usize = 0;
    while i < n
        invariant
            n == config.channels@.len(),
            0 <= i <= n,
            targets@.len() == config.channels@.subrange(0, i as int).filter(
                |e: (String, ChannelConfig)| notify_qualifies(e),
            ).len(),
            forall|j: int|
                0 <= j < targets@.len() ==> {
                    let qual = config.channels@.subrange(0, i as int).filter(
                        |e: (String, ChannelConfig)| notify_qualifies(e),
                    );
                    (#[trigger] targets@[j]).0@ == qual[j].0@ && (qual[j].1.guest_notify
                        matches Some(gn) && targets_match(targets@[j].1@, gn))
                },
        decreases n - i,
    {
        proof {
            reveal(Seq::filter);
            assert(config.channels@.subrange(0, i + 1).drop_last() =~= config.channels@.subrange(
                0,
                i as int,
            ));
        }
        let entry = &config.channels[i];
        match &entry.1.guest_notify {
            Some(gn) => {
                if gn.guests.len() > 0 {
                    let port = gn.port;
                    let mut channel_targets: Vec<NotifyTarget> = Vec::new();
                    let gn_len = gn.guests.len();
                    let mut k: usize = 0;
                    while k < gn_len
                        invariant
                            gn_len == gn.guests@.len(),
                            0 <= k <= gn_len,
                            port == gn.port,
                            channel_targets@.len() == k,
                            forall|m: int|
                                0 <= m < k ==> channel_targets@[m] == (NotifyTarget {
                                    cid: gn.guests@[m],
                                    port: gn.port,
                                }),
                        decreases gn_len - k,
                    {
                        channel_targets.push(NotifyTarget { cid: gn.guests[k], port });
                        k = k + 1;
                    }
                    targets.push((entry.0.clone(), channel_targets));
                }
            },
            None => {},
        }
        i = i + 1;
    }
    proof {
        assert(config.channels@.subrange(0, n as int) =~= config.channels@);
    }
    if targets.len() == 0 {
        Notifier::disabled()
    } else {
        Notifier::new(targets)
    }
}

} // verus!
