[package]
name = "lanyte-verify"
version = "0.1.0"
edition = "2021"
publish = false

[dependencies]
serde = { version = "1", features = ["derive"] }
serde_json = "1"
similar = "2"
thiserror = "2"
reqwest = { version = "0.12", default-features = false, features = ["blocking"] }
