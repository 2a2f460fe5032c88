[package]
name = "kolibri_engine"
version = "0.1.0"
edition = "2021"
publish = false

[dependencies]
anyhow = "=1.0.104"
bytemuck = { version = "=1.25.2", features = ["derive"] }
encase = { version = "=0.11.2", features = ["glam"] }
glam = "=0.30.10"
log = "=0.4.35"
notify = "=8.2.1"
pollster = "=1.0.1"
thiserror = "=2.0.21"
wgpu = "=30.0.1"
winit = "=0.30.13"
