[package]
name = "break_reminder"
version = "0.1.0"
edition = "2021"
publish = false

[dependencies]
chrono = { version = "0.4", default-features = false, features = ["clock", "serde"] }
serde = { version = "1", features = ["derive"] }
serde_json = "1"
dirs = "5"
image = { version = "0.25", default-features = false, features = ["ico"] }
winreg = "0.52"
tray-icon = "0.19"
slint = { version = "1.8", default-features = false, features = ["std", "compat-1-2"] }
