[package]
name = "openless"
version = "0.1.0"
edition = "2021"
publish = false

[dependencies]
url = "2"
chrono = { version = "0.4", default-features = false, features = ["clock", "std"] }
serde = { version = "1", features = ["derive"] }
serde_json = "1"
reqwest = { version = "0.12", default-features = false, features = ["multipart", "json"] }
arboard = { version = "3", default-features = false }
enigo = "0.2"
parking_lot = "0.12"
log = "0.4"
anyhow = "1"
thiserror = "1"
