[package]
name = "libp2p-wasi-sockets"
version = "0.5.0"
edition = "2021"
publish = false

[dependencies]
libp2p-core = { version = "0.43", default-features = false }
futures = { version = "0.3", default-features = false, features = ["std", "async-await"] }
thiserror = "2"
tracing = "0.1"
wasip2 = "1"
wstd = "0.6"
