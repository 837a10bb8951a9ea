[package]
name = "nwc_service"
version = "0.1.0"
edition = "2021"
publish = false

[dependencies]
nostr = { version = "=0.45.5", features = ["nip47", "os-rng"] }
axum = "=0.8.9"
tokio = { version = "=1.53.2", features = ["full"] }
sqlx = { version = "=0.9.0", default-features = false, features = ["postgres", "runtime-tokio", "derive"] }
deadpool-redis = "=0.23.1"
serde = { version = "=1.0.229", features = ["derive"] }
serde_json = "=1.0.151"
tower-http = { version = "=0.7.1", features = ["trace"] }
tracing = "=0.1.44"
tracing-subscriber = "=0.3.23"
refinery = { version = "=0.10.0", features = ["tokio-postgres"] }
tokio-postgres = "=0.7.18"
