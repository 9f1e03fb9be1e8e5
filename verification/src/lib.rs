//! Cross-VM file exchange tools: a host-side file-propagation gate, a
//! guest-to-host scanning proxy, and the shared pieces they are built from.
//!
//! The host daemon observes each producer's share tree, quiets bursts of raw
//! change notifications, scans what was newly deposited, and hands clean
//! content on to the other producers and a read-only export tree.  The proxy forwards a small allowlist of
//! scanner commands from guests to a local scanner socket with strict framing
//! and size limits.

pub mod config;
pub mod daemon;
pub mod notify;
pub mod qmp;
pub mod scanner;
pub mod skipcache;
pub mod strutil;
pub mod watcher;
pub mod sync;
pub mod util;
pub mod vclient;
pub mod vproxy;
