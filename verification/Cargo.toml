[package]
name = "libcoinche"
version = "0.1.0"
edition = "2021"
publish = false

[dependencies]
rand = "0.8"
serde = { version = "1", features = ["derive"] }
rustc-serialize = "0.3"
