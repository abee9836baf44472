[package]
name = "imgviewer"
version = "0.2.2"
edition = "2021"
publish = false

[dependencies]
rand = "=0.9.5"
parking_lot = "=0.12.5"
serde = { version = "=1.0.229", features = ["derive"] }
serde_json = "=1.0.154"
url = "=2.5.8"
