[package]
name = "bambu_overlay"
version = "0.1.0"
edition = "2021"
publish = false

[dependencies]
anyhow = "1"
async-stream = "0.3"
axum = "=0.8.9"
bytes = "=1.12.1"
chrono = "=0.4.45"
clap = { version = "4", features = ["derive"] }
dirs = "6"
futures-core = "0.3"
minijinja = "=2.24.0"
native-tls = "0.2"
reqwest = { version = "=0.12.28", features = ["json"] }
rpassword = "7"
rumqttc = { version = "0.25", default-features = false, features = ["use-native-tls"] }
serde = { version = "=1.0.229", features = ["derive"] }
serde_json = "=1.0.154"
tokio = { version = "=1.54.1", features = ["full"] }
tokio-native-tls = "0.3"
tokio-rustls = { version = "=0.26.6", default-features = false, features = ["ring", "logging", "tls12"] }
tracing = "0.1"
tracing-subscriber = "0.3"
uuid = { version = "=1.29.0", features = ["v4"] }
