[package]
name = "whale_land"
version = "0.1.0"
edition = "2021"
publish = false

[dependencies]
clap = { version = "4", features = ["derive"] }
libc = "0.2"
sxd-document = "0.3"
tokio = { version = "1", features = ["net", "sync", "rt", "io-util"] }
tracing = "0.1"
