[package]
name = "wanikani_tui"
version = "0.1.0"
edition = "2021"
publish = false

[dependencies]
chrono = "0.4"
wana_kana = "*"
serde = { version = "1", features = ["derive"] }
serde_json = "1"
ureq = { version = "2", features = ["json"] }
crossterm = "0.28"
ratatui = "0.29"
