[package]
name = "pastebin"
version = "0.1.0"
edition = "2021"
publish = false

[dependencies]
blake3 = "=0.3.8"
bytes = "=0.5.6"
chrono = "=0.4.45"
flexi_logger = "=0.16.3"
futures = "=0.3.34"
lazy_static = "=1.5.1"
log = "=0.4.34"
mime_guess = "=2.0.5"
num-bigint = "=0.3.3"
pulldown-cmark = "=0.8.0"
serde = { version = "=1.0.229", features = ["derive"] }
serde_yaml = "=0.8.26"
sled = { version = "=0.34.7", features = ["compression"] }
syntect = "=4.6.0"
tokio = { version = "=0.2.25", features = ["full"] }
uuid = { version = "=0.8.2", features = ["v4"] }
warp = "=0.2.5"
