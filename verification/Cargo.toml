[package]
name = "esphome2loki"
version = "0.1.0"
edition = "2021"
publish = false

[dependencies]
chrono = "0.4"
figment = { version = "0.10", features = ["toml", "env"] }
futures = "0.3"
reqwest = { version = "0.11", default-features = false, features = ["json", "rustls-tls"] }
rumqttc = "0.23"
rustls = "0.21"
rustls-native-certs = "0.6"
serde = { version = "1", features = ["derive"] }
structopt = "0.3"
tokio = { version = "1", features = ["full"] }
tracing = "0.1"
tracing-subscriber = { version = "0.3", features = ["env-filter"] }
