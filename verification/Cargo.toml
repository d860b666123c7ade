[package]
name = "waywallen"
version = "0.1.0"
edition = "2021"
publish = false

[dependencies]
anyhow = "1"
chrono = "0.4"
futures-util = "0.3"
glob = "0.3"
log = "0.4"
mlua = { version = "0.10", features = ["lua54", "vendored", "async", "send", "serialize"] }
reqwest = { version = "0.12", default-features = false, features = ["cookies", "json", "rustls-tls"] }
semver = "1"
serde = { version = "1", features = ["derive"] }
serde_json = "1"
tokio = { version = "1", features = ["full"] }
toml = "0.8"
uuid = { version = "1", features = ["v4"] }
