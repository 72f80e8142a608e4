[package]
name = "arturo"
version = "0.1.0"
edition = "2021"
publish = false

[dependencies]
axum = "0.8"
clap = { version = "4", features = ["derive", "env"] }
commonware-consensus = "=0.0.65"
commonware-cryptography = "=0.0.65"
commonware-utils = "=0.0.65"
futures = "0.3"
futures-channel = "0.3"
hex = "0.4"
reqwest = { version = "0.12", default-features = false, features = ["json"] }
serde = { version = "1", features = ["derive"] }
serde_json = "1"
thiserror = "2"
tokio = { version = "1", features = ["sync", "rt", "rt-multi-thread", "macros", "time", "signal", "net"] }
toml = "0.8"
tracing = "0.1"
tracing-subscriber = "0.3"
