[package]
name = "hyper_serde"
version = "0.1.0"
edition = "2021"
publish = false

[dependencies]
cookie = "=0.12.0"
hyper = { version = "=0.14.32", default-features = false }
hyperx = { version = "=1.4.0", features = ["headers"] }
mime = "=0.3.17"
serde = { version = "=1.0.229", features = ["derive"] }
serde_bytes = "=0.11.19"
time = "=0.1.45"
