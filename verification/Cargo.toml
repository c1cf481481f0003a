[package]
name = "trend_analyzes"
version = "0.1.0"
edition = "2021"
publish = false

[dependencies]
serde_json = { version = "=1.0.154", features = ["float_roundtrip"] }
serde = { version = "=1.0.229", features = ["derive"] }
reqwest = { version = "=0.12.28", default-features = false, features = ["json", "rustls-tls"] }
axum = "=0.8.9"
tokio = { version = "=1.54.1", features = ["full"] }
async-trait = "=0.1.92"
thiserror = "=2.0.21"
dotenvy = "=0.15.7"
tower-http = { version = "=0.6.11", features = ["cors", "fs"] }
urlencoding = "=2.1.3"
utoipa = "=5.5.0"
utoipa-swagger-ui = { version = "=9.0.2", features = ["axum"] }
