[package]
name = "virga"
version = "0.1.0"
edition = "2021"
publish = false

[dependencies]
async-trait = "*"
env_logger = "*"
futures = "*"
log = "*"
tokio = { version = "*", features = ["rt", "rt-multi-thread", "net", "io-util"] }
tokio-util = { version = "*", features = ["compat"] }
tokio-vsock = "*"
yamux = "*"
