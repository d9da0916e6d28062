[package]
name = "reverie"
version = "0.1.0"
edition = "2021"
publish = false

[dependencies]
anyhow = "1"
cgmath = "0.18"
env_logger = "0.10"
instant = "0.1"
once_cell = "1"
pollster = "0.3"
serde = { version = "1", features = ["derive"] }
serde_yaml = "0.9"
tobj = "3"
wgpu = "0.16"
winit = "0.28"
