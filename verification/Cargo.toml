[package]
name = "fresh"
version = "0.1.0"
edition = "2021"
publish = false

[dependencies]
syntect = { version = "=5.3.0", default-features = false, features = ["default-syntaxes", "parsing", "regex-fancy"] }
libc = "=0.2.191"
dirs = "=5.0.1"
serde = { version = "1", features = ["derive"] }
serde_json = "1"
ratatui = { version = "0.29", default-features = false }
