[package]
name = "deepseek-harness-windows"
version = "0.1.0"
edition = "2021"
publish = false

[dependencies]
serde_json = "1"
tauri = { version = "2", default-features = false }
tauri-plugin-autostart = { version = "2", default-features = false }
