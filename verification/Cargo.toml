[package]
name = "ui"
version = "0.1.0"
edition = "2021"
publish = false

[dependencies]
unicode-segmentation = "1"
regex = "1"
serde = { version = "1", features = ["derive"] }
serde_json = "1"
charts-rs = "*"
anyhow = "1"
