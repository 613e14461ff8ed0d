[package]
name = "pulsarrow"
version = "0.1.0"
edition = "2021"
publish = false

[dependencies]
arrow = { version = "*", default-features = false, features = ["ipc", "prettyprint"] }
futures = "*"
pulsar = { version = "*", default-features = false, features = ["tokio-runtime"] }
rand = "*"
tokio = { version = "*", features = ["macros", "rt-multi-thread", "time"] }
