[package]
name = "sync-subdir"
version = "0.1.0"
edition = "2021"
publish = false

[dependencies]
anyhow = "1"
chrono = "0.4"
clap = "4"
crossterm = "0.27"
fs_extra = "1.3"
git2 = { version = "0.18", default-features = false }
ratatui = "0.24"
tempfile = "3"
thiserror = "1"
tokio = { version = "1", features = ["rt-multi-thread", "macros", "sync", "time"] }
tracing = "0.1"
tracing-subscriber = "0.3"
