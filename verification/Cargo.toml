[package]
name = "renderer_core"
version = "0.1.0"
edition = "2021"
publish = false

[dependencies]
glam = "=0.34.1"
wgpu = "=30.0.1"
gltf = "=1.4.1"
tobj = "=4.0.5"
anyhow = "=1.0.104"
log = "=0.4.34"
env_logger = "=0.11.11"
bytemuck = "=1.25.2"

[dependencies.image]
version = "=0.25.10"
default-features = false
features = ["png", "jpeg", "bmp"]
