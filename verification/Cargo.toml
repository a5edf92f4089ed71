[package]
name = "actix_web_detached_jws_middleware"
version = "0.1.0"
edition = "2021"
publish = false

[dependencies]
tempfile = "=3.27.0"
serde_json = "=1.0.151"
actix-web = { version = "=3.3.3", default-features = false }
actix-service = "=1.0.6"
futures = "=0.3.34"

[dev-dependencies]
anyhow = "=1.0.104"
rsa = "=0.9.10"
sha2 = { version = "=0.10.9", features = ["oid"] }
rand = "=0.8.8"
base64 = "=0.22.1"
detached-jws = { version = "=0.2.1", default-features = false }
