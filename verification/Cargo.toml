[package]
name = "watch_party"
version = "0.1.0"
edition = "2021"
publish = false

[dependencies]
anyhow = "1"
futures-util = "0.3"
gstreamer = "0.23"
gstreamer-play = "0.23"
postcard = { version = "=1.1.3", features = ["alloc"] }
reqwest = { version = "0.12", default-features = false, features = ["stream", "rustls-tls"] }
ring = "=0.17.14"
serde = { version = "1", features = ["derive"] }
serde_json = "1"
tokio = { version = "1", features = ["io-std", "io-util", "macros", "net", "rt-multi-thread", "sync", "time"] }
