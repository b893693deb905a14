[package]
name = "dag_engine"
version = "0.1.0"
edition = "2021"
publish = false

[dependencies]
uuid = { version = "=1.29.0", features = ["v4"] }
chrono = "=0.4.45"
serde = { version = "=1.0.229", features = ["derive"] }
serde_json = "=1.0.154"
serde_yaml = "=0.9.34"
regex = "=1.13.1"
hmac = "=0.12.1"
sha2 = "=0.10.9"
hex = "=0.4.3"
base64 = "=0.22.1"
cron = "=0.17.0"
evalexpr = "=13.1.0"
thiserror = "=2.0.21"
tokio = { version = "=1.54.1", features = ["full"] }
serde_json_path = "*"
reqwest = { version = "0.12", default-features = false, features = ["json"] }
axum = "0.7"
tracing = "0.1"
tracing-subscriber = { version = "0.3", features = ["env-filter", "json"] }
rhai = { version = "1", features = ["sync"] }
tokio-stream = "0.1"
tower-http = { version = "*", features = ["trace", "compression-gzip"] }
sqlx = { version = "0.8", default-features = false, features = ["runtime-tokio", "postgres", "derive", "uuid", "chrono"] }
