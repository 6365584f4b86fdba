[package]
name = "danube_connect"
version = "0.1.0"
edition = "2021"
publish = false

[dependencies]
base64 = "=0.23.1"
sha2 = "=0.11.0"
serde_json = "=1.0.151"
chrono = "=0.4.45"
jsonwebtoken = { version = "=11.1.0", default-features = false, features = ["rust_crypto", "use_pem"] }
serde = { version = "=1.0.229", features = ["derive"] }
toml = "=1.1.7"
tokio = { version = "=1.53.2", features = ["rt-multi-thread", "macros", "sync", "time", "net"] }
axum = "=0.8.9"
governor = "=0.10.4"
rumqttc = "=0.25.1"
