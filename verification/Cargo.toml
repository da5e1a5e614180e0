[package]
name = "raycaster"
version = "0.1.0"
edition = "2021"
publish = false

[dependencies]
image = { version = "0.24", default-features = false, features = ["png", "gif"] }
nalgebra-glm = "0.18"
rodio = { version = "0.17", default-features = false, features = ["mp3"] }
rusttype = "0.9"
winit = { version = "0.28", default-features = false, features = ["x11"] }
