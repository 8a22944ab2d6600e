[package]
name = "sunrisewinds"
version = "0.1.0"
edition = "2021"
publish = false

[dependencies]
anyhow = "=1.0.104"
axum = { version = "=0.8.9", features = ["ws"] }
chrono = { version = "=0.4.45", features = ["serde"] }
config = { version = "=0.14.1", default-features = false, features = ["toml"] }
lettre = { version = "=0.11.23", default-features = false, features = ["builder", "smtp-transport", "rustls-tls"] }
notify-rust = "=4.18.2"
reqwest = { version = "=0.12.28", default-features = false, features = ["json", "rustls-tls"] }
rusqlite = { version = "=0.32.1", features = ["bundled"] }
serde = { version = "=1.0.229", features = ["derive"] }
serde_json = "=1.0.154"
tokio = { version = "=1.54.1", features = ["full"] }
tower-http = { version = "=0.6.11", features = ["cors", "fs"] }
tracing = "=0.1.44"
tracing-subscriber = { version = "=0.3.23", features = ["env-filter"] }
