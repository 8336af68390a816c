[package]
name = "git_lumina"
version = "0.1.0"
edition = "2021"
publish = false

[dependencies]
git2 = { version = "=0.21.0", features = ["https", "ssh"] }
chrono = "=0.4.45"
ratatui = "=0.30.2"
crossterm = "=0.29.0"
anyhow = "=1.0.104"
