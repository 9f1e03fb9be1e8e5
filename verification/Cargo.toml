[package]
name = "ghaf_tools"
version = "0.1.0"
edition = "2021"
publish = false

[dependencies]
anyhow = "*"
bytes = "*"
clap = { version = "*", features = ["derive"] }
futures = "*"
inotify = "*"
log = "*"
lru = "*"
rustix = { version = "*", features = ["fs"] }
sendfd = "*"
serde = { version = "*", features = ["derive"] }
serde_json = "*"
systemd-journal-logger = "*"
tempfile = "*"
tokio = { version = "*", features = ["full"] }
tokio-vsock = "*"
