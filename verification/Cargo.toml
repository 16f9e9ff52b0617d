[package]
name = "mario"
version = "0.1.0"
edition = "2021"
publish = false

[dependencies]
anyhow = "1"
async-trait = "0.1"
futures = "0.3"
hyper = { version = "0.14", features = ["full"] }
hyperlocal = "0.8"
lazy_static = "1"
rocksdb = "0.17"
serde = { version = "1", features = ["derive"] }
serde_json = "1"
thiserror = "1"
tokio = { version = "1", features = ["full"] }
