[package]
name = "openstart"
version = "0.1.0"
edition = "2021"
publish = false

[dependencies]
chrono = "0.4"
uuid = { version = "1", features = ["v4"] }
serde = { version = "1", features = ["derive"] }
serde_json = "1"
rusqlite = "0.31"
ureq = { version = "2", features = ["json"] }
dirs = "5"
winreg = "0.52"
log = "0.4"
