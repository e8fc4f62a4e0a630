[package]
name = "leda"
version = "0.1.0"
edition = "2021"
publish = false

[dependencies]
rustls = { version = "0.21", features = ["dangerous_configuration"] }
thiserror = "1"
url = "2"
