[package]
name = "cryptos"
version = "0.1.0"
edition = "2021"
publish = false

[dependencies]
base64 = "=0.21.7"
chrono = "=0.4.45"
erased-serde = "=0.4.11"
futures-util = "=0.3.34"
hex = "=0.4.3"
hmac = "=0.12.1"
home = "=0.5.12"
josekit = "=0.8.7"
redis = { version = "=0.25.5", default-features = false, features = ["aio", "tokio-comp"] }
reqwest = { version = "=0.12.28", default-features = false, features = ["json"] }
rsa = { version = "=0.9.10", features = ["sha2"] }
rust_decimal = "=1.43.0"
rust_decimal_macros = "=1.40.0"
serde = { version = "=1.0.229", features = ["derive"] }
serde_json = "=1.0.154"
sha2 = "=0.10.9"
tokio = { version = "=1.54.1", features = ["rt-multi-thread", "macros", "sync", "net"] }
tokio-cron = "=0.1.3"
tokio-tungstenite = "=0.21.0"
url = "=2.5.8"
xid = "=1.1.1"
