[package]
name = "rust_animation"
version = "0.2.0"
edition = "2021"
publish = false

[dependencies]
keyframe = "1"
cgmath = "0.18"
stretch = "0.3"
ab_glyph = "0.2"
image = { version = "0.25", default-features = false, features = ["png"] }
