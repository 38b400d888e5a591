[package]
name = "linefetch"
version = "0.1.0"
edition = "2021"
publish = false

[dependencies]
sled = "0.34"
sha2 = "0.10"
hex = "0.4"
chrono = "0.4"
serde = { version = "1", features = ["derive"] }
serde_json = "1"
anyhow = "1"
clap = { version = "4", features = ["derive"] }
config = { version = "0.13", default-features = false, features = ["toml"] }
dotenv = "0.15"
futures = "0.3"
tokio = { version = "1", features = ["macros", "rt-multi-thread", "time", "fs", "net", "sync"] }
reqwest = { version = "0.11", default-features = false, features = ["rustls-tls"] }
axum = "0.7"
tracing = "0.1"
tracing-subscriber = { version = "0.3", features = ["env-filter"] }
