[package]
name = "echo_supervisor"
version = "0.1.0"
edition = "2021"
publish = false

[dependencies]
bytes = "1"
futures = "0.3"
tokio = { version = "1", features = ["rt", "rt-multi-thread", "net", "signal", "sync", "time", "macros", "io-util"] }
tokio-util = "0.7"
