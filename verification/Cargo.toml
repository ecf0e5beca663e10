[package]
name = "blend"
version = "0.8.0"
edition = "2021"
publish = false

[dependencies]
linked-hash-map = "0.5"
nom = { version = "5.1", default-features = false, features = ["std"] }
