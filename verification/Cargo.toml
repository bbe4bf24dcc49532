[package]
name = "mcpg-plugin-backend-ftp"
version = "0.1.0"
edition = "2021"
publish = false

[dependencies]
async-trait = "0.1"
base64 = "=0.22.1"
chrono = "0.4"
serde = { version = "1", features = ["derive"] }
serde_json = "=1.0.154"
suppaftp = { version = "=12.2.1", features = ["tokio-rustls-ring"] }
tokio = { version = "1", features = ["rt", "time", "sync", "io-util", "macros", "net"] }
tokio-rustls = { version = "0.26", default-features = false, features = ["ring", "tls12", "logging"] }
tracing = "0.1"
webpki-roots = "1"
