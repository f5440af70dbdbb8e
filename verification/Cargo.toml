[package]
name = "raytracing"
version = "0.1.0"
edition = "2021"
publish = false

[dependencies]
image = { version = "0.25", default-features = false, features = ["jpeg", "png"] }
anyhow = "1"
bytemuck = { version = "1", features = ["derive"] }
cgmath = "0.18"
egui = "0.33"
egui-wgpu = { version = "0.33", default-features = false }
egui-winit = { version = "0.33", default-features = false, features = ["x11"] }
rand = "0.9"
rfd = { version = "0.15", default-features = false, features = ["xdg-portal", "tokio"] }
wasm-bindgen = "0.2"
web-sys = { version = "0.3", features = ["Window", "Performance", "console"] }
wgpu = { version = "27", default-features = false, features = ["wgsl", "webgpu", "vulkan"] }
winit = { version = "0.30", default-features = false, features = ["x11", "rwh_06"] }
