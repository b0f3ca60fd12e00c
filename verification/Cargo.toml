[package]
name = "time_manager"
version = "0.1.0"
edition = "2021"
publish = false

[dependencies]
getrandom = "0.2"
tiny_http = "0.12"
rusqlite = { version = "0.31", features = ["bundled"] }
serde = { version = "1", features = ["derive"] }
serde_json = "1"
log = "0.4"
