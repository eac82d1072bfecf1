[package]
name = "ro_inventario"
version = "0.1.0"
edition = "2021"
publish = false

[dependencies]
regex = "1"
rust_decimal = "1"
uuid = { version = "1", features = ["v4", "serde"] }
hmac = "0.12"
sha2 = "0.10"
pbkdf2 = "0.12"
chrono = { version = "0.4", features = ["serde"] }
serde = { version = "1", features = ["derive"] }
serde_json = "1"
anyhow = "1"
thiserror = "2"
log = "0.4"
axum = "0.8"
axum-login = "*"
tower-sessions = "0.14"
tower-sessions-sqlx-store = { version = "*", features = ["postgres"] }
askama = "*"
tokio = { version = "1", features = ["full"] }
tower = "0.5"
tower-http = { version = "0.6", features = ["fs", "trace"] }
tracing = "0.1"
tracing-subscriber = { version = "0.3", features = ["json"] }
dotenvy = "0.15"
time = "0.3"
sqlx = { version = "0.8", default-features = false, features = ["runtime-tokio", "postgres", "sqlite", "uuid", "chrono", "rust_decimal"] }
reqwest = { version = "0.12", default-features = false, features = ["json", "rustls-tls"] }
