[package]
name = "tagvox"
version = "0.1.0"
edition = "2021"
publish = false

[dependencies]
argon2 = { version = "0.5", features = ["std"] }
rand = "0.8"
regex = "1"
urlencoding = "2"
serde = { version = "1", features = ["derive"] }
serde_json = "1"
strsim = "0.11"
toml = "0.8"
chrono = { version = "0.4", default-features = false, features = ["std"] }
rpassword = "7"
tokio = { version = "1", features = ["full"] }
axum = { version = "0.8", features = ["multipart"] }
tower-http = { version = "0.6", features = ["fs"] }
reqwest = { version = "0.11", default-features = false, features = ["json", "rustls-tls"] }
sqlx = { version = "0.8", default-features = false, features = ["sqlite", "runtime-tokio"] }
serenity = { version = "0.12", default-features = false, features = ["builder", "cache", "client", "gateway", "model", "http", "rustls_backend", "utils"] }
tracing = "0.1"
tracing-subscriber = { version = "0.3", default-features = false, features = ["env-filter", "fmt", "std"] }
