[package]
name = "branch_deck"
version = "0.1.0"
edition = "2021"
publish = false

[dependencies]
indexmap = "=2.14.2"
chrono = { version = "=0.4.45", default-features = false, features = ["clock", "std"] }
serde = { version = "=1.0.229", features = ["derive"] }
serde_json = "=1.0.154"
anyhow = "=1.0.104"
tokio = { version = "=1.54.1", features = ["rt-multi-thread", "macros", "sync", "fs", "time"] }
dashmap = "=6.2.1"
futures-util = "=0.3.34"
reqwest = { version = "=0.12.28", default-features = false, features = ["rustls-tls", "stream"] }
reqwest-middleware = "=0.4.2"
reqwest-retry = "=0.7.0"
candle-core = "=0.9.2"
candle-nn = "=0.9.2"
candle-transformers = "=0.9.2"
tokenizers = { version = "=0.21.4", default-features = false, features = ["onig"] }
regex = "=1.13.1"
