[package]
name = "peppylib"
version = "0.1.0"
edition = "2021"
publish = false

[dependencies]
bytes = "1"
capnp = "*"
rand = "*"
serde = { version = "1", features = ["derive"] }
serde_json = "1"
serde_json5 = "*"
schemars = "*"
tokio = { version = "1", features = ["full"] }
tokio-util = "0.7"
futures = "0.3"
flume = "*"
tracing = "0.1"
