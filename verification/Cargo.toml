[package]
name = "asp_dot_rust"
version = "0.1.0"
edition = "2021"
publish = false

[dependencies]
memchr = "2"
http = "1"
hyper = { version = "1", features = ["server", "http1"] }
tokio = { version = "1", features = ["rt-multi-thread", "net", "io-util", "time", "macros"] }
uuid = { version = "1", features = ["v7"] }
inventory = "0.3"
arc-swap = "1"
serde = { version = "1", features = ["derive"] }
async-trait = "0.1"
rustls = { version = "0.23", default-features = false, features = ["std"] }
bitflags = "2"
