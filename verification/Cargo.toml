[package]
name = "active-call"
version = "0.3.0"
edition = "2021"
publish = false

[dependencies]
anyhow = "1"
arc-swap = "1"
async-trait = "0.1"
audio-codec = "*"
axum = { version = "*", features = ["ws"] }
chrono = { version = "0.4", features = ["serde"] }
clap = { version = "4", features = ["derive"] }
ebur128 = "*"
futures = "0.3"
humantime = "2"
ipnet = { version = "2", features = ["serde"] }
lru = "*"
rand = "*"
regex = "1"
rsipstack = "*"
rustrtc = "*"
serde = { version = "1", features = ["derive"] }
serde_json = "1"
tokio = { version = "1", features = ["full"] }
tokio-tungstenite = "*"
tokio-util = "0.7"
toml = "*"
tracing = "0.1"
uuid = { version = "1", features = ["v4"] }
