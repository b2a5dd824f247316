[package]
name = "ov_cli"
version = "0.1.0"
edition = "2021"
publish = false

[dependencies]
serde = { version = "=1.0.229", features = ["derive"] }
serde_json = { version = "=1.0.154", features = ["preserve_order"] }
tabled = "=0.22.0"
unicode-width = "=0.1.11"
