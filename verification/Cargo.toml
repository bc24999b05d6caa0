[package]
name = "orderbook_aggregator"
version = "0.1.0"
edition = "2021"
publish = false

[dependencies]
arrayvec = "0.7"
async-trait = "0.1"
fast_log = "1.5"
futures-util = "0.3"
log = "0.4"
prettytable-rs = "0.10"
prost = "0.11"
serde = { version = "1", features = ["derive"] }
serde_json = "1"
tokio = { version = "1", features = ["macros", "rt-multi-thread", "sync"] }
tokio-stream = "0.1"
tokio-tungstenite = { version = "0.20", features = ["rustls-tls-webpki-roots"] }
tonic = "0.9"
url = "2"
