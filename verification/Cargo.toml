[package]
name = "smtp_core"
version = "0.1.0"
edition = "2021"
publish = false

[dependencies]
mail-send = "*"
smtp-proto = "*"
tokio = { version = "*", features = ["full"] }
tokio-rustls = "*"
