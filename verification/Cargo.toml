[package]
name = "scanning_backend"
version = "0.1.0"
edition = "2021"
publish = false

[dependencies]
anyhow = "=1.0.104"
argon2 = "=0.5.3"
chrono = "=0.4.45"
creditcard = "=0.1.0"
futures-util = "=0.3.34"
log = "=0.4.35"
openssl = "=0.10.82"
password-hash = { version = "=0.5.0", features = ["getrandom"] }
rand = "=0.9.5"
rand_chacha = "=0.9.0"
regex = "=1.13.1"
rusqlite = { version = "=0.41.1", features = ["bundled"] }
serde = { version = "=1.0.229", features = ["derive"] }
serde-email = "=4.0.0"
serde_json = "=1.0.154"
tokio = { version = "=1.54.1", features = ["full"] }
tokio-tungstenite = "=0.30.0"
tracing-subscriber = { version = "=0.3.23", features = ["env-filter"] }
tungstenite = "=0.30.0"
