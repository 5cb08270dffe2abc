[package]
name = "leech"
version = "0.1.0"
edition = "2021"
publish = false

[dependencies]
anyhow = "*"
bytes = "*"
futures = "*"
rand = "*"
reqwest = { version = "*", default-features = false }
serde = "*"
serde_bencode = "*"
serde_bytes = "*"
serde_derive = "*"
sha1 = "*"
tokio = { version = "*", features = ["full"] }
tokio-util = { version = "*", features = ["codec"] }
