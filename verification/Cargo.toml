[package]
name = "rsml"
version = "0.1.0"
edition = "2021"
publish = false

[dependencies]
image = { version = "=0.25.10", default-features = false, features = ["png", "jpeg"] }
rand = "=0.10.3"
fontdue = "=0.9.5"
thiserror = "=2.0.21"
cgmath = "=0.18.0"
bytemuck = { version = "=1.25.2", features = ["derive"] }
log = "=0.4.35"
env_logger = "=0.11.11"
once_cell = "=1.21.4"
web-time = "=1.1.0"
wgpu = "=30.0.1"
winit = "=0.30.13"
