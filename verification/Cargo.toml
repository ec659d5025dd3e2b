[package]
name = "gcodekit5_ui"
version = "0.1.0"
edition = "2021"
publish = false

[dependencies]
uuid = { version = "=1.29.0", features = ["v4"] }
anyhow = "=1.0.104"
getrandom = "=0.4.3"
