[package]
name = "forwarder"
version = "0.1.0"
edition = "2021"
publish = false

[dependencies]
astarte-device-sdk = "0.6"
backoff = { version = "0.4", features = ["tokio"] }
base64 = "0.21"
clap = { version = "4", features = ["derive"] }
color-eyre = "0.6"
console-subscriber = "0.2"
displaydoc = "0.2"
futures-util = { version = "0.3", features = ["sink"] }
prost = "0.12"
reqwest = { version = "0.11", default-features = false }
thiserror = "1"
tokio = { version = "1", features = ["full"] }
tokio-tungstenite = "0.20"
tracing = "0.1"
tracing-subscriber = { version = "0.3", features = ["env-filter"] }
tungstenite = "0.20"
url = "2"
