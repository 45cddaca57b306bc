[package]
name = "pumpfeed"
version = "0.1.0"
edition = "2021"
publish = false

[dependencies]
serde_json = "=1.0.151"
url = "=2.5.8"
chrono = "=0.4.45"
dotenvy = "=0.15.7"
futures-util = "=0.3.34"
tokio = { version = "=1.53.2", features = ["rt-multi-thread", "macros", "time"] }
tokio-tungstenite = { version = "=0.30.0", features = ["rustls-tls-webpki-roots"] }
reqwest = { version = "=0.13.5", features = ["stream"] }
