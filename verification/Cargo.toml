[package]
name = "advancement_tracker"
version = "0.1.0"
edition = "2021"
publish = false

[dependencies]
anyhow = "1"
async-stream = "0.3"
axum = "0.8"
base64 = "0.22"
bytes = "1"
crab_nbt = "*"
csv = "1"
flate2 = "1"
futures = "0.3"
hex = "0.4"
notify = "8"
regex = "1"
reqwest = { version = "0.12", default-features = false, features = ["json", "rustls-tls"] }
serde = { version = "1", features = ["derive"] }
serde_json = "1"
sha2 = "0.10"
tokio = { version = "1", features = ["full"] }
tower-http = { version = "0.6", features = ["fs"] }
walkdir = "2"
zip = { version = "2", default-features = false, features = ["deflate"] }
