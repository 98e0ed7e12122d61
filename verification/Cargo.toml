[package]
name = "ycallr_core"
version = "0.1.0"
edition = "2021"
publish = false

[dependencies]
percent-encoding = "2"
base64 = "0.22"
serde_json = "1"
serde = { version = "1", features = ["derive"] }
serde_yaml = "0.9"
prost = "0.13"
thiserror = "2"
dirs = "6"
regex = "1"
reqwest = { version = "0.12", default-features = false, features = ["blocking", "json", "multipart", "rustls-tls"] }
