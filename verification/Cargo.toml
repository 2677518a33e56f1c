[package]
name = "certus_gateway"
version = "0.1.0"
edition = "2021"
publish = false

[dependencies]
arc-swap = "*"
axum = "*"
clap = { version = "*", features = ["derive"] }
crossbeam = "*"
hyper = { version = "*", features = ["client", "http1", "http2"] }
hyper-util = { version = "*", features = ["tokio"] }
jsonwebtoken = "9"
notify = "*"
rand = "0.9"
serde = { version = "*", features = ["derive"] }
serde_yaml = "*"
tokio = { version = "*", features = ["rt-multi-thread", "macros", "net", "signal", "sync", "time"] }
tracing = "*"
tracing-subscriber = { version = "*", features = ["env-filter", "json"] }
