[package]
name = "licensebat"
version = "0.1.0"
edition = "2021"
publish = false

[dependencies]
serde_json = "1"
serde = { version = "1", features = ["derive"] }
reqwest = { version = "0.11", default-features = false, features = ["json", "rustls-tls"] }
tokio = { version = "1", features = ["fs", "rt-multi-thread", "macros"] }
futures = "0.3"
anyhow = "1"
thiserror = "1"
tracing = "0.1"
