[package]
name = "chatgpt_shell"
version = "0.1.0"
edition = "2021"
publish = false

[dependencies]
serde = { version = "1", features = ["derive"] }
serde_json = "1"
shellexpand = "3"
ureq = { version = "2", features = ["json"] }
tauri = { version = "2", default-features = false }
