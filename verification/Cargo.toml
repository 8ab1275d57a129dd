[package]
name = "maze_geometry"
version = "0.1.0"
edition = "2021"
publish = false

[dependencies]
rand = "0.8"
cgmath = "0.18"
bytemuck = { version = "1", features = ["derive"] }
serde = { version = "1", features = ["derive"] }
serde_json = "1"
wgpu = { version = "*", default-features = false }
