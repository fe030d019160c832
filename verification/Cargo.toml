[package]
name = "clipsync"
version = "0.1.3"
edition = "2021"
publish = false

[dependencies]
arboard = "3"
chacha20poly1305 = "0.10"
directories = "5"
futures-util = "0.3"
hex = "0.4"
hkdf = "0.12"
hostname = "0.4"
mdns-sd = "0.11"
rand = "0.8"
rmp-serde = "1"
serde = { version = "1", features = ["derive"] }
serde_bytes = "0.11"
serde_json = "1"
sha2 = "0.10"
tokio = { version = "1", features = ["rt-multi-thread", "macros", "net", "sync", "time"] }
tokio-tungstenite = "0.24"
toml = "0.8"
tracing = "0.1"
tracing-appender = "0.2"
tracing-subscriber = { version = "0.3", features = ["env-filter", "json"] }
uuid = { version = "1", features = ["v4"] }
