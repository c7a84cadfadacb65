[package]
name = "scheduler_module"
version = "0.1.0"
edition = "2021"
publish = false

[dependencies]
regex = "=1.13.1"
md5 = "=0.7.0"
uuid = { version = "=1.29.0", features = ["v4"] }
base64 = "=0.22.1"
sha1 = "=0.10.7"
sha2 = "=0.10.9"
hmac = "=0.12.1"
hex = "=0.4.3"
serde = { version = "=1.0.229", features = ["derive"] }
serde_json = "=1.0.154"
serde_urlencoded = "=0.7.1"
dotenvy = "=0.15.7"
reqwest = { version = "=0.12.28", default-features = false, features = ["blocking", "json"] }
chrono = "0.4"
