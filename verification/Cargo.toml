[package]
name = "faultforge"
version = "0.1.0"
edition = "2021"
publish = false

[dependencies]
subtle = { version = "=2.6.1", default-features = false }
tokio = { version = "=1.54.1", features = ["rt-multi-thread", "sync", "time"] }
serialport = { version = "=4.10.1", default-features = false }
heapless = { version = "0.8", default-features = false }
