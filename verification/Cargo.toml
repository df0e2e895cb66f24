[package]
name = "azalea"
version = "0.1.0"
edition = "2021"
publish = false

[dependencies]
priority-queue = "=2.7.0"
serde = { version = "=1.0.229", features = ["derive"] }
serde_json = "=1.0.151"
sha1 = "*"
flate2 = "*"
