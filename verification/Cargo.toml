[package]
name = "hakoniwa_conductor"
version = "0.1.0"
edition = "2021"
publish = false

[dependencies]
serde = { version = "=1.0.229", features = ["derive"] }
serde_json = "=1.0.154"
paho-mqtt = { version = "=0.12.5", default-features = false }
libc = "=0.2.191"
link-cplusplus = "=1.0.12"
chan = "=0.1.23"
chan-signal = "=0.3.3"
once_cell = "=1.21.4"
futures = "=0.3.34"
async-std = "=1.13.2"
