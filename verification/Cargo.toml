[package]
name = "memo_cache"
version = "0.1.0"
edition = "2021"
publish = false

[dependencies]
chrono = { version = "0.4", default-features = false, features = ["clock"] }
linked-hash-map = "0.5"
