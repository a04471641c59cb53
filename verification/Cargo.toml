[package]
name = "jeek"
version = "0.1.0"
edition = "2021"
publish = false

[dependencies]
calamine = "0.22"
crossterm = "0.27"
csv = "1"
ratatui = "0.26"
reqwest = { version = "0.11", default-features = false, features = ["blocking"] }
serde = { version = "1", features = ["derive"] }
serde_json = "1"
toml = "0.8"
