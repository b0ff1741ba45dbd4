[package]
name = "lag_lab"
version = "0.1.0"
edition = "2021"
publish = false

[dependencies]
serde = { version = "=1.0.229", features = ["derive"] }
serde_json = "=1.0.151"
time = { version = "=0.3.55", features = ["parsing", "formatting"] }
tokio = { version = "=1.53.2", features = ["rt-multi-thread", "macros", "time", "net", "sync"] }
axum = { version = "=0.8.9", features = ["ws"] }
reqwest = { version = "=0.12.28", default-features = false, features = ["json"] }
