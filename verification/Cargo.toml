[package]
name = "redis_aio"
version = "0.1.0"
edition = "2021"
publish = false

[dependencies]
async-native-tls = "0.5"
async-std = "1"
combine = { version = "4.6", features = ["std", "tokio"] }
futures-rustls = { version = "0.26", default-features = false }
futures-util = "0.3"
pin-project-lite = "0.2"
rustls = { version = "0.23", default-features = false, features = ["std"] }
tokio = { version = "1", features = ["io-util", "net", "rt"] }
tokio-util = { version = "0.7", features = ["codec"] }
