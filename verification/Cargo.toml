[package]
name = "rustnao"
version = "0.4.0"
edition = "2021"
publish = false

[dependencies]
url = "2"
serde_json = "1"
serde = { version = "1", features = ["derive"] }
reqwest = { version = "0.12", default-features = false, features = ["json", "multipart"] }
