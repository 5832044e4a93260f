[package]
name = "hyper-accelerator"
version = "0.1.0"
edition = "2021"
publish = false

[dependencies]
cookie = { version = "0.18", features = ["percent-encode"] }
hyper = { version = "1", features = ["http1", "server"] }
hyper-util = { version = "0.1", features = ["tokio"] }
log = "0.4"
regex = "1"
serde = { version = "1", features = ["derive"] }
serde_json = "1"
tokio = { version = "1", features = ["fs", "io-util", "macros", "net", "rt-multi-thread"] }
