[package]
name = "aeco_patcher"
version = "0.1.0"
edition = "2021"
publish = false

[dependencies]
byte-unit = "=4.0.19"
futures-util = "0.3"
reqwest = { version = "=0.11.27", default-features = false, features = ["stream"] }
serde_json = "1"
subprocess = "=0.2.15"
tempfile = "3"
tokio = { version = "1", features = ["rt-multi-thread"] }
zip = { version = "0.6", default-features = false, features = ["deflate"] }
