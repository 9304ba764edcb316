[package]
name = "recode"
version = "0.1.0"
edition = "2021"
publish = false

[dependencies]
bytes = "1"
delegate = "*"
thiserror = "1"
tokio-util = { version = "0.7", features = ["codec"] }
ux = "0.1"

[dev-dependencies]
fake = "2"
