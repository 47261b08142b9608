[package]
name = "rangeserve"
version = "0.1.0"
edition = "2021"
publish = false

[dependencies]
uuid = { version = "1", features = ["v4"] }
warp = "0.3"
tokio = { version = "1", features = ["fs", "io-util", "rt-multi-thread", "macros"] }
once_cell = "1"
serde = { version = "1", features = ["derive"] }
