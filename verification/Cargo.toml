[package]
name = "vmux_desktop"
version = "0.1.0"
edition = "2021"
publish = false

[dependencies]
chrono = "=0.4.45"
ron = "*"
serde = { version = "1", features = ["derive"] }
serde_json = "=1.0.154"
