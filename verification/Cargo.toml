[package]
name = "zallocator"
version = "0.1.0"
edition = "2021"
publish = false

[dependencies]
crossbeam-queue = "=0.3.14"
crossbeam-channel = "=0.5.17"
futures-timer = "=3.0.4"
tokio = { version = "=1.54.1", default-features = false, features = ["rt"] }
async-std = "1"
smol = "2"
