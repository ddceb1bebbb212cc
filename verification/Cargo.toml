[package]
name = "tabi"
version = "0.1.0"
edition = "2021"
publish = false

[dependencies]
rustc_apfloat = "=0.2.3"
libm = "=0.2.16"
bytemuck = { version = "=1.25.2", features = ["derive"] }
hex = "=0.4.3"
serde_json = "1"
zip = "*"
env_logger = "*"
futures = "*"
glam = "*"
resvg = "*"
wgpu = "0.14"
winit = "0.27"
