[package]
name = "twintail"
version = "0.1.0"
edition = "2021"
publish = false

[dependencies]
cuid2 = "=0.1.6"
steam_shortcuts_util = "=1.1.9"
serde = { version = "=1.0.229", features = ["derive"] }
serde_json = "=1.0.154"
gumdrop = "=0.8.1"
linked-hash-map = "=0.5.6"
