[package]
name = "licht"
version = "0.1.0"
edition = "2021"
publish = false

[dependencies]
bytes = "1"
csv = "1"
reqwest = { version = "0.12", default-features = false, features = ["blocking", "json"] }
serde = { version = "1", features = ["derive"] }
serde_json = "1"
zip = { version = "2", default-features = false, features = ["deflate"] }
