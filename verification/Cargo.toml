[package]
name = "zcode_store"
version = "0.1.0"
edition = "2021"
publish = false

[dependencies]
ropey = { version = "1.6", default-features = false }
rustc-hash = "2"
unicode-xid = "0.2"
serde = { version = "1", features = ["derive"] }

[dev-dependencies]
serde_json = "1"
