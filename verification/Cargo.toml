[package]
name = "buzz_device"
version = "0.1.0"
edition = "2021"
publish = false

[dependencies]
sha2 = "=0.10.9"
serde = { version = "=1.0.229", features = ["derive"] }
serde_json = "=1.0.154"
thiserror = "=2.0.21"
nostr = { version = "=0.45.6", features = ["std", "os-rng", "nip44"] }
tokio = { version = "=1.54.1", features = ["full"] }
tokio-tungstenite = "=0.30.0"
futures-util = "=0.3.34"
clap = { version = "=4.6.7", features = ["derive"] }
chrono = "=0.4.45"
rand = "=0.10.3"
uuid = { version = "=1.29.0", features = ["v4"] }
tracing = "=0.1.44"
tracing-subscriber = { version = "=0.3.23", features = ["env-filter"] }
reqwest = { version = "=0.12.28", default-features = false, features = ["json", "rustls-tls"] }
rustls = { version = "=0.23.46", default-features = false, features = ["ring", "std"] }
