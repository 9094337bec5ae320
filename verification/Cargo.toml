[package]
name = "for_mqtt"
version = "0.1.0"
edition = "2021"
publish = false

[dependencies]
pretty-hex = "=0.4.2"
serde = { version = "=1.0.229", features = ["derive"] }
serde_json = "=1.0.154"
sled = "=0.34.7"
crossbeam-channel = "=0.5.17"
thiserror = "=1.0.69"
anyhow = "=1.0.104"
bytes = "=1.12.1"
log = "=0.4.35"
lazy_static = "=1.5.1"
tokio = { version = "=1.54.1", features = ["rt-multi-thread", "macros", "time"] }
for-mqtt-client = "=0.3.6"
directories = "*"
druid = "*"
