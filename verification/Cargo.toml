[package]
name = "tile_scene"
version = "0.1.0"
edition = "2021"
publish = false

[dependencies]
nalgebra-glm = "0.18"
nalgebra = "0.32"
bytemuck = { version = "1", features = ["derive"] }
serde_json = "1"
cfg-if = "1"
log = "0.4"
env_logger = "0.10"
winit = "0.28"
wgpu = "0.16"
image = { version = "0.24", default-features = false, features = ["png"] }
