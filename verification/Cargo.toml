[package]
name = "feather"
version = "0.1.2"
edition = "2021"
publish = false

[dependencies]
anyhow = "1"
chrono = "*"
clap = { version = "4", features = ["derive", "env"] }
clap_complete = "4"
hidapi = { version = "2", default-features = false, features = ["linux-native-basic-udev"] }
humantime = "2"
humantime-serde = "1"
nvml-wrapper = "*"
sd-notify = "*"
serde = { version = "1", features = ["derive"] }
serde_json = "1"
serialport = { version = "4", default-features = false }
tempfile = "3"
thiserror = "2"
tokio = { version = "1", features = ["full"] }
toml = "*"
tracing = "0.1"
tracing-subscriber = { version = "0.3", features = ["env-filter"] }
