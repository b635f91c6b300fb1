[package]
name = "mini_ai_1c"
version = "0.1.0"
edition = "2021"
publish = false

[dependencies]
aes-gcm = "=0.10.3"
base64 = "=0.22.1"
sha2 = "=0.10.9"
rand = "=0.8.8"
serde_json = "=1.0.154"
serde = { version = "=1.0.229", features = ["derive"] }
dirs = "=5.0.1"
chrono = "0.4"
reqwest = { version = "0.12", default-features = false, features = ["blocking", "json", "rustls-tls"] }
zip = { version = "2", default-features = false, features = ["deflate"] }
