[package]
name = "shadowreplay"
version = "0.1.0"
edition = "2021"
publish = false

[dependencies]
async-trait = "0.1"
base64 = "0.22"
chrono = "0.4"
flate2 = "1"
futures = "0.3"
futures-util = "0.3"
hex = "0.4"
log = "0.4"
m3u8-rs = "5"
prost = "0.13"
rand = "0.8"
regex = "1"
reqwest = { version = "0.12", default-features = false }
sanitize-filename = "0.6"
serde = { version = "1", features = ["derive"] }
serde_json = "1"
thiserror = "1"
tokio = { version = "1", features = ["full"] }
tokio-tungstenite = "0.26"
uuid = { version = "1", features = ["v4"] }
