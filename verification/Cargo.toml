[package]
name = "registrar"
version = "0.1.0"
edition = "2021"
publish = false

[dependencies]
actix = "0.13"
actix-codec = "0.5"
anyhow = "1"
awc = { version = "3", default-features = false }
futures = { version = "0.3", default-features = false, features = ["std"] }
hex = "0.4"
matrix-sdk = { version = "0.7", default-features = false, features = ["e2e-encryption", "rustls-tls", "sqlite"] }
rand = "0.8"
serde = { version = "1", features = ["derive"] }
serde_json = "1"
serde_yaml = "0.9"
strsim = "0.10"
tokio = { version = "1", features = ["fs", "macros", "rt", "rt-multi-thread", "sync", "time"] }
tracing = "0.1"
tracing-subscriber = { version = "0.3", default-features = false, features = ["ansi", "env-filter", "fmt"] }
