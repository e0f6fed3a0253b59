[package]
name = "rport"
version = "0.1.0"
edition = "2021"
publish = false

[dependencies]
anyhow = "1"
async-stream = "*"
axum = "0.8"
bytes = "=1.12.1"
chrono = "=0.4.45"
clap = { version = "4", features = ["derive"] }
egui = { version = "0.31", default-features = false, features = ["default_fonts"] }
futures = "0.3"
get_if_addrs = "*"
home = "*"
ipnet = "=2.12.2"
pem = "=3.0.6"
rand = "=0.10.3"
rustrtc = "0.3"
serde = { version = "1", features = ["derive"] }
serde_json = "1"
tokio = { version = "1", features = ["full"] }
tokio-util = "0.7"
toml = "*"
tower-http = { version = "0.6", features = ["cors", "trace"] }
tracing = "0.1"
tracing-subscriber = { version = "0.3", features = ["env-filter"] }
turn = "=0.17.2"
uuid = { version = "=1.29.0", features = ["v4"] }
webrtc-util = "=0.17.2"
