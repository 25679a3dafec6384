[package]
name = "epoch_indexer"
version = "0.1.0"
edition = "2021"
publish = false

[dependencies]
anyhow = "1"
async-trait = "0.1"
bcs = "0.1"
diesel = { version = "2.2", default-features = false, features = ["postgres_backend"] }
diesel-async = { version = "0.5", features = ["postgres", "bb8"] }
futures = "0.3"
tokio = { version = "1", features = ["rt", "macros", "sync", "time"] }
tokio-util = "0.7"
tracing = "0.1"
