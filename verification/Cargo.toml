[package]
name = "another-rust-load-balancer"
version = "0.1.0"
edition = "2021"
publish = false

[dependencies]
arc-swap = "=1.9.3"
chrono = "=0.4.45"
clap = "=2.34.0"
cookie = "=0.15.2"
futures = "=0.3.34"
hyper = { version = "=0.14.32", features = ["full"] }
hyper-timeout = "=0.4.1"
log = "=0.4.34"
serde = { version = "=1.0.229", features = ["derive"] }
tokio = { version = "=1.54.1", features = ["full"] }
tokio-rustls = "=0.22.0"
toml = "0.5"
