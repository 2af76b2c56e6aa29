[package]
name = "coding_tools"
version = "0.1.0"
edition = "2021"
publish = false

[dependencies]
serde_json = "1"
tauri = { version = "2", default-features = false, features = ["wry", "tray-icon"] }
