[package]
name = "t_ide"
version = "0.1.0"
edition = "2021"
publish = false

[dependencies]
rusqlite = { version = "*", features = ["bundled"] }
chrono = "*"
rand = "*"
serde = { version = "*", features = ["derive"] }
serde_json = "*"
thiserror = "*"
tokio = { version = "*", features = ["full"] }
axum = { version = "*", features = ["ws"] }
axum-server = { version = "*", features = ["tls-rustls"] }
tracing = "*"
tracing-subscriber = { version = "*", features = ["env-filter"] }
keyring = "*"

[dev-dependencies]
tempfile = "*"
