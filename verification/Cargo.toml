[package]
name = "renderer"
version = "0.1.0"
edition = "2021"
publish = false

[dependencies]
triple_buffer = "*"
image = { version = "*", default-features = false, features = ["png"] }
wgpu = "*"
winit = "*"
pollster = "*"
bytemuck = { version = "*", features = ["derive"] }
rfd = "*"
