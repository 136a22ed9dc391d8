[package]
name = "tasklist_core"
version = "0.1.0"
edition = "2021"
publish = false

[dependencies]
axum = { version = "=0.8.9", features = ["ws"] }
bb8 = "=0.9.1"
bcrypt = "=0.19.3"
chrono = "=0.4.45"
futures = "=0.3.34"
jsonwebtoken = { version = "=10.4.0", features = ["rust_crypto"] }
redis = { version = "=1.8.0", features = ["tokio-comp", "bb8"] }
serde = { version = "=1.0.229", features = ["derive"] }
serde_json = { version = "=1.0.154", features = ["preserve_order"] }
tokio = { version = "=1.54.1", features = ["full"] }
uuid = { version = "=1.29.0", features = ["v4", "serde"] }
