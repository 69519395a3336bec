[package]
name = "dump1090_rs"
version = "0.1.0"
edition = "2021"
publish = false

[dependencies]
crossbeam-channel = "0.5"
parking_lot = "0.12"
tokio = { version = "1", features = ["rt-multi-thread", "net", "io-util", "sync", "time", "signal", "process", "macros"] }
tracing = "0.1"
tracing-subscriber = "0.3"
