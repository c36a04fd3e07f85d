[package]
name = "mc_tui"
version = "0.1.0"
edition = "2021"
publish = false

[dependencies]
anyhow = "1"
chrono = "0.4"
clap = { version = "4", features = ["derive", "env"] }
crossterm = "0.28"
md-5 = "0.10"
portable-pty = "0.8"
ratatui = "0.29"
rustls = "0.23"
serde = { version = "1", features = ["derive"] }
serde_json = "1"
sysinfo = "0.32"
ureq = "2"
