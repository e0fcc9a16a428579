[package]
name = "color_crunch"
version = "0.1.0"
edition = "2021"
publish = false

[dependencies]
rand = "*"
wgpu = "*"
futures = "*"
bytemuck = { version = "*", features = ["derive"] }
