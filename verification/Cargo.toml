[package]
name = "acp_harness"
version = "0.1.0"
edition = "2021"
publish = false

[dependencies]
anyhow = "=1.0.104"
futures = "=0.3.34"
log = "=0.4.35"
parking_lot = "=0.12.5"
serde = { version = "=1.0.229", features = ["derive"] }
serde_json = "=1.0.154"
shlex = "=1.3.0"
tokio = { version = "=1.54.1", features = ["fs", "io-util", "macros", "process", "rt", "rt-multi-thread", "time"] }
uuid = { version = "=1.29.0", features = ["v4"] }
