[package]
name = "hft-clob-core"
version = "0.1.0"
edition = "2021"
publish = false

[dependencies]
bytes = "1"
hdrhistogram = "7"
thiserror = "2"
tokio = { version = "1", features = ["io-util", "macros", "net", "rt", "rt-multi-thread", "sync", "time"] }
tracing = "0.1"
