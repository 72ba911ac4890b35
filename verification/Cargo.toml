[package]
name = "msim"
version = "0.1.0"
edition = "2021"
publish = false

[dependencies]
rand = { version = "=0.8.8", features = ["small_rng"] }
futures = "=0.3.34"
syn = { version = "=2.0.119", features = ["full"] }
proc-macro2 = "=1.0.107"
quote = "=1.0.47"
async-task = "=4.7.1"
tokio = { version = "=1.54.1", features = ["io-util", "macros", "rt", "sync", "time"] }
tracing = "=0.1.44"
tracing-subscriber = "0.3"
libc = "=0.2.191"
