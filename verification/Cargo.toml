[package]
name = "deeprecall"
version = "0.1.0"
edition = "2021"
publish = false

[dependencies]
sha2 = "=0.10.9"
uuid = { version = "=1.29.0", features = ["v4"] }
mime_guess = "=2.0.5"
urlencoding = "=2.1.3"
base64 = "=0.22.1"
serde = { version = "=1.0.229", features = ["derive"] }
serde_json = "=1.0.154"
chrono = "=0.4.45"
dirs = "=5.0.1"
walkdir = "=2.5.0"
anyhow = "=1.0.104"
rusqlite = { version = "=0.40.2", features = ["bundled"] }
tokio = { version = "=1.54.1", features = ["rt", "macros"] }
tokio-postgres = { version = "=0.7.18", features = ["with-uuid-1", "with-serde_json-1"] }
postgres-types = "=0.2.14"
lazy_static = "1"
dotenv = "0.15"
keyring = "*"
rustls = "*"
tokio-postgres-rustls = "*"
webpki-roots = "*"
