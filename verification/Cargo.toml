[package]
name = "physics2d"
version = "0.1.0"
edition = "2021"
publish = false

[dependencies]
anyhow = "1"
cgmath = "0.18"
mlua = { version = "0.10", features = ["lua54", "vendored"] }
pollster = "*"
winit = { version = "0.30", default-features = false, features = ["x11", "rwh_06"] }
