[package]
name = "easy_gpu"
version = "0.1.0"
edition = "2021"
publish = false

[dependencies]
wgpu = "=30.0.1"
image = { version = "=0.25.10", default-features = false, features = ["png", "jpeg"] }
bytemuck = "=1.25.2"
winit = { version = "=0.30.13", default-features = false, features = ["rwh_06", "x11"] }

[dev-dependencies]
wgpu = { version = "=30.0.1", features = ["noop"] }
