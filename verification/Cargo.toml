[package]
name = "luke_desktop"
version = "0.1.0"
edition = "2021"
publish = false

[dependencies]
flate2 = "*"
uuid = { version = "*", features = ["v4"] }
rust-argon2 = "*"
chrono = "*"
serde = { version = "*", features = ["derive"] }
serde_json = "*"
directories = "*"
rusqlite = { version = "*", features = ["bundled"] }
keyring = "*"
thiserror = "*"
