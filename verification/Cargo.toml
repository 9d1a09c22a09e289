[package]
name = "blexicon"
version = "0.1.0"
edition = "2021"
publish = false

[dependencies]
clap = { version = "3", features = ["derive"] }
linked-hash-map = "0.5"
serde = { version = "1", features = ["derive"] }
serde_cbor = "0.11"
serde_json = { version = "1", features = ["preserve_order"] }
serde_with = "3"
serde_yaml = "0.8"
tungstenite = "0.19"
url = "2"
