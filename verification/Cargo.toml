[package]
name = "apple-translate-rs-sync"
version = "0.1.0"
edition = "2021"
publish = false

[dependencies]
swift-bridge = "0.1"
