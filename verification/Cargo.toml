[package]
name = "hcnetsdk_rust_demo"
version = "0.1.0"
edition = "2021"
publish = false

[dependencies]
chrono = "=0.4.45"
libloading = "=0.8.9"
once_cell = "=1.21.4"
parking_lot = "=0.12.5"
serde = { version = "=1.0.229", features = ["derive"] }
serde_json = "=1.0.154"
env_logger = "=0.11.11"
log = "=0.4.35"
libc = "=0.2.191"
encoding_rs = "0.8"
