[package]
name = "bimap"
version = "0.1.0"
edition = "2021"
publish = false

[dependencies]
sha2 = "0.10"
hickory-proto = { version = "0.24", default-features = false }
pnet_packet = "0.35"
rcgen = "0.13"
rustls = "0.23"
tokio-rustls = "0.26"
tokio = { version = "1", features = ["full"] }
serde = { version = "1", features = ["derive"] }
serde_json = "1"
clap = { version = "4", features = ["derive"] }
tracing = "0.1"
tracing-subscriber = { version = "0.3", features = ["env-filter"] }
owo-colors = "4"
libc = "0.2"
async-trait = "0.1"
