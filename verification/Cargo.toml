[package]
name = "ntx"
version = "0.1.0"
edition = "2021"
publish = false

[dependencies]
anyhow = "1"
arboard = { version = "3", default-features = false }
chrono = "0.4"
crossterm = "0.28"
dirs = "5"
portable-pty = "0.8"
ratatui = "0.29"
vt100 = "0.15"
