[package]
name = "leaf"
version = "0.1.0"
edition = "2021"
publish = false

[dependencies]
rand = "0.8"
colored = "2"
tokio = { version = "1", features = ["full"] }
futures = "0.3"
async-trait = "0.1"
log = "0.4"
lazy_static = "1"
