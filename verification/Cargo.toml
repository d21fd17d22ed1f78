[package]
name = "myaitoimg"
version = "0.1.7"
edition = "2021"
publish = false

[dependencies]
base64 = "0.22"
dirs = "5"
reqwest = { version = "0.12", default-features = false, features = ["json", "multipart"] }
serde = { version = "1", features = ["derive"] }
serde_json = "1"
