[package]
name = "greylistd"
version = "0.1.0"
edition = "2021"
publish = false

[dependencies]
anyhow = "1"
crossbeam-channel = "0.5"
serde = { version = "1", features = ["derive"] }
serde_ini = "0.2"
serde_plain = "1"
signal-hook = "0.3"
systemd = "*"
