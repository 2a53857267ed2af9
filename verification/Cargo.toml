[package]
name = "imapmaildir"
version = "0.1.0"
edition = "2021"
publish = false

[dependencies]
anstyle = "1"
anyhow = "1"
bytes = "1"
chrono = { version = "0.4", default-features = false }
clap = { version = "4", features = ["derive"] }
derive_builder = "0.20"
derive-getters = "0.5"
enumflags2 = "0.7"
env_logger = "0.11"
futures = "0.3"
imap-proto = "0.16"
jiff = "0.2"
log = "0.4"
native-tls = "0.2"
nom = "7"
rustix = { version = "1", features = ["fs"] }
serde = { version = "1", features = ["derive"] }
thiserror = "2"
tokio = { version = "1", features = ["full"] }
tokio-native-tls = "0.3"
tokio-util = { version = "0.7", features = ["codec"] }
toml = "0.8"
