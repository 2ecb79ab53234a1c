[package]
name = "geo4d"
version = "0.1.0"
edition = "2021"
publish = false

[dependencies]
geo3d = "*"
serde = { version = "1", features = ["derive"] }
