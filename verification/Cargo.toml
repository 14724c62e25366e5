[package]
name = "ray_tracing_wgpu"
version = "0.1.0"
edition = "2021"
publish = false

[dependencies]
rand = "0.9"
cgmath = "0.18"
wgpu = "*"
tobj = "*"
pollster = "*"
image = { version = "*", default-features = false, features = ["png"] }
