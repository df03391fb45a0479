[package]
name = "vector"
version = "0.1.0"
edition = "2021"
publish = false

[dependencies]
regex = "1"
serde_json = "1"
percent-encoding = "2"
http = "0.2"
serde = { version = "1", features = ["derive"] }
toml = "0.5"
futures = "0.3"
tokio = { version = "1", features = ["net", "time", "rt", "sync", "macros", "io-util"] }
tokio-tungstenite = "0.15"
hyper = { version = "0.14", features = ["client", "http1", "http2", "tcp"] }
