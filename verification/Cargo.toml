[package]
name = "hush"
version = "0.1.0"
edition = "2021"
publish = false

[dependencies]
sha2 = "0.10"
csv = "1"
serde = { version = "1", features = ["derive"] }
serde_json = "1"
anyhow = "1"
zeroize = "1"
async-trait = "0.1"
tracing = "0.1"
tokio = { version = "1", features = ["fs", "io-util", "rt", "macros", "sync", "time"] }
futures-util = "0.3"
reqwest = { version = "0.12", default-features = false, features = ["stream"] }
