[package]
name = "libdl"
version = "0.1.0"
edition = "2021"
publish = false

[dependencies]
reqwest = { version = "0.12", default-features = false, features = ["rustls-tls", "stream"] }
url = "2"
tokio = { version = "1", features = ["fs", "io-util", "macros", "rt-multi-thread", "sync", "time"] }
futures-util = "0.3"
clap = { version = "4", features = ["derive"] }
indicatif = "0.17"
dialoguer = "0.11"
serde_json = "1"
tracing = "0.1"
