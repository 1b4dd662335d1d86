[package]
name = "script_reloader"
version = "1.1.0"
edition = "2021"
publish = false

[dependencies]
base64 = "0.22"
serde = { version = "1", features = ["derive"] }
serde_json = "1"
windows = { version = "0.58", features = ["Win32_Security_Cryptography", "Win32_Foundation"] }
