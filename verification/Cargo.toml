[package]
name = "astrea"
version = "0.1.0"
edition = "2021"
publish = false

[dependencies]
tokio = { version = "1", features = ["rt-multi-thread", "macros", "net", "io-util", "sync"] }
hyper = { version = "0.14", features = ["http1", "server", "client", "tcp"] }
hyper-tls = "0.5"
native-tls = "0.2"
tokio-native-tls = "0.3"
serde = { version = "1", features = ["derive"] }
serde_yaml = "0.9"
