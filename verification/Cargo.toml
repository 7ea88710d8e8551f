[package]
name = "mohu"
version = "0.1.0"
edition = "2021"
publish = false

[dependencies]
smallvec = "1"
half = "2"
num-complex = "0.4"
serde = { version = "1", features = ["derive"] }
thiserror = "1"
arrow = { version = "*", default-features = false }
