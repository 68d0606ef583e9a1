[package]
name = "xenbakd"
version = "0.1.0"
edition = "2021"
publish = false

[dependencies]
chrono = "0.4"
tokio = { version = "1", features = ["full"] }
serde = { version = "1", features = ["derive"] }
serde_json = "1"
thiserror = "1"
eyre = "0.6"
color-eyre = "0.6"
colored = "2"
clap = { version = "4", features = ["derive"] }
figment = { version = "0.10", features = ["toml"] }
tracing = "0.1"
tracing-subscriber = { version = "0.3", features = ["env-filter"] }
async-trait = "0.1"
async-compression = { version = "0.4", features = ["tokio", "gzip", "zstd"] }
async-tempfile = "0.5"
lettre = { version = "0.11", default-features = false, features = ["smtp-transport", "builder", "pool", "tokio1"] }
reqwest = { version = "0.12", default-features = false, features = ["json"] }
reqwest-middleware = "0.3"
reqwest-retry = "0.5"
tokio-cron-scheduler = "0.13"
