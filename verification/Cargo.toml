[package]
name = "flottery"
version = "0.1.0"
edition = "2021"
publish = false

[dependencies]
qrcode = { version = "*", default-features = false, features = ["svg"] }
cool-id-generator = "*"
axum = "*"
tokio = { version = "*", features = ["rt-multi-thread", "macros", "sync", "net"] }
