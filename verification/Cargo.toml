[package]
name = "mterm"
version = "0.1.0"
edition = "2021"
publish = false

[dependencies]
image = "=0.24.9"
bytemuck = "=1.25.2"
bytemuck_derive = "=1.12.1"
winit = "=0.26.1"
wgpu = "=0.12.0"
futures = { version = "=0.3.34", default-features = false, features = ["executor"] }
thiserror = "=1.0.69"
