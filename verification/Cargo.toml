[package]
name = "segmented_fetch"
version = "0.1.0"
edition = "2021"
publish = false

[dependencies]
futures = "0.3"
hyper = "0.13"
hyper-tls = "0.4"
indicatif = "0.15"
tokio = { version = "0.2", features = ["full"] }
