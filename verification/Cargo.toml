[package]
name = "getlyricsmcp"
version = "0.1.0"
edition = "2021"
publish = false

[dependencies]
futures = "0.3"
moka = { version = "0.12", features = ["sync"] }
reqwest = { version = "0.12", default-features = false, features = ["rustls-tls"] }
rmcp = { version = "*", features = ["server", "transport-io", "macros"] }
schemars = "*"
scraper = "*"
serde = { version = "1", features = ["derive"] }
serde_json = "1"
thiserror = "2"
tokio = { version = "1", features = ["macros", "rt-multi-thread", "io-std", "sync"] }
tracing = "0.1"
tracing-subscriber = { version = "0.3", features = ["env-filter"] }
