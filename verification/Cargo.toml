[package]
name = "nano"
version = "0.1.0"
edition = "2021"
publish = false

[dependencies]
async-trait = "0.1"
color-eyre = "0.6"
crossterm = "0.29"
eventsource-stream = "0.2"
futures-util = "0.3"
ratatui = "0.30"
reqwest = { version = "0.12.23", default-features = false, features = ["http2", "rustls-tls", "stream"] }
serde = { version = "1", features = ["derive"] }
serde_json = "1"
textwrap = "0.16"
thiserror = "2"
tokio = { version = "1", features = ["macros", "rt", "sync", "time", "net", "io-util"] }
tracing = "0.1"
