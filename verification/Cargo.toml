[package]
name = "proxy_scan"
version = "0.1.0"
edition = "2021"
publish = false

[dependencies]
serde_json = "1"
tokio = { version = "1", features = ["rt-multi-thread", "macros", "net", "io-util", "time"] }
futures = "0.3"
native-tls = "0.2"
tokio-native-tls = "0.3"
