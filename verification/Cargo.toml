[package]
name = "text_buffer"
version = "0.1.0"
edition = "2021"
publish = false

[dependencies]
syntect = { version = "4", default-features = false, features = ["default-fancy"] }
winit = "0.22"
wgpu_glyph = "0.8"
