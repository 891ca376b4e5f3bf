[package]
name = "semantic-events"
version = "0.1.0"
edition = "2021"
publish = false

[dependencies]
rustc-hash = "2"
serde = { version = "1", features = ["derive"] }
uuid = { version = "1", features = ["serde"] }
xxhash-rust = { version = "0.8", features = ["xxh3"] }
