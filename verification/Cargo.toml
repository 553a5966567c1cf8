[package]
name = "wallet_api"
version = "0.1.0"
edition = "2021"
publish = false

[dependencies]
rust-crypto = "=0.2.36"
base64 = "=0.13.1"
percent-encoding = "=2.3.2"
sql-builder = "=3.1.1"
chrono = { version = "=0.4.45", default-features = false, features = ["clock"] }
regex = "=1.13.1"
serde = { version = "=1.0.229", features = ["derive"] }
serde_json = "=1.0.154"
tokio = { version = "=1.54.1", features = ["rt-multi-thread", "macros", "net", "sync"] }
reqwest = { version = "=0.12.28", default-features = false }
futures-channel = "=0.3.34"
futures-util = { version = "=0.3.34", features = ["sink"] }
sqlx = { version = "=0.8.6", default-features = false, features = ["mysql", "runtime-async-std"] }
redis = { version = "=1.8.1", default-features = false, features = ["aio", "smol-comp"] }
tide = { version = "=0.16.0", default-features = false, features = ["h1-server"] }
async-std = { version = "=1.13.2", features = ["attributes"] }
tokio-tungstenite = "=0.30.0"
dotenv = "=0.15.0"
