[package]
name = "rusty_halloween"
version = "0.1.0"
edition = "2021"
publish = false

[dependencies]
crc = "3"
heapless = "0.8"
serde = { version = "1", features = ["derive"] }
serde_json = "1"
postcard = { version = "1", features = ["use-crc"] }
smart-leds = "0.4"
anyhow = "1"
log = "0.4"
once_cell = "1"
tokio = { version = "1", features = ["full"] }
axum = "0.7"
tower-http = { version = "0.5", features = ["cors"] }
tracing = "0.1"
tracing-subscriber = { version = "0.3", features = ["env-filter"] }
reqwest = { version = "0.12", default-features = false, features = ["json", "stream"] }
