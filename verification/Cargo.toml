[package]
name = "malbox"
version = "0.1.0"
edition = "2021"
publish = false

[dependencies]
hcl-rs = "=0.20.0"
uuid = { version = "=1.29.0", features = ["v4"] }
tokio = { version = "=1.54.1", features = ["full"] }
tracing = "=0.1.44"
serde = { version = "=1.0.229", features = ["derive"] }
serde_json = "=1.0.154"
thiserror = "=2.0.21"
serde_yaml = "=0.9.34"
toml = "=1.1.8"
time = "=0.3.55"
anyhow = "=1.0.104"
futures = "=0.3.34"
tokio-stream = "=0.1.19"
reqwest = { version = "=0.12.28", default-features = false, features = ["rustls-tls", "stream"] }
sqlx = { version = "=0.8.6", default-features = false, features = ["runtime-tokio", "postgres", "time", "derive"] }
