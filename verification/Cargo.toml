[package]
name = "skills_hub"
version = "0.1.0"
edition = "2021"
publish = false

[dependencies]
dirs = "*"
reqwest = { version = "0.12", default-features = false, features = ["blocking"] }
serde = { version = "1", features = ["derive"] }
serde_json = "1"
ssh2 = "*"
tempfile = "3"
urlencoding = "2"
uuid = { version = "1", features = ["v4"] }
walkdir = "2"
zip = "*"
