[package]
name = "satellite_bridge"
version = "0.1.0"
edition = "2021"
publish = false

[dependencies]
base64 = "=0.21.7"
lru = "=0.12.5"
image = { version = "=0.24.9", default-features = false, features = ["jpeg", "bmp", "png"] }
elgato-streamdeck = { version = "=0.4.1", features = ["async"] }
anyhow = "1"
async-trait = "0.1"
clap = { version = "4", features = ["derive"] }
tokio = { version = "1", features = ["net", "io-util", "rt-multi-thread", "macros", "sync", "time"] }
tracing = "0.1"
tracing-subscriber = "0.3"
