[package]
name = "hue"
version = "0.1.0"
edition = "2021"
publish = false

[dependencies]
chrono = "*"
glyph_brush = "*"
wgpu = "*"
wgpu_text = "*"
winit = "*"
