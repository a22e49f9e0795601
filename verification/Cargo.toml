[package]
name = "lowrez"
version = "0.1.0"
edition = "2021"
publish = false

[dependencies]
rand = "=0.8.8"
wgpu = "=0.15.1"
winit = "=0.27.5"
cgmath = "=0.18.0"
bytemuck = { version = "=1.25.2", features = ["derive"] }
pollster = "=0.2.5"
env_logger = "=0.9.3"
