[package]
name = "tde"
version = "0.1.1"
edition = "2021"
publish = false

[dependencies]
anyhow = "1"
chrono = "0.4"
crossterm = "0.28"
dirs = "5"
mlua = { version = "0.10", features = ["lua54", "vendored"] }
portable-pty = "0.8"
ratatui = "0.29"
serde = { version = "1", features = ["derive"] }
sysinfo = "0.32"
toml = "0.8"
