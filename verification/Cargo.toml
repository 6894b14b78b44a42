[package]
name = "quant_planet"
version = "0.1.0"
edition = "2021"
publish = false

[dependencies]
cgmath = "0.18"
fastrand = "2"
sdl3 = "*"
glsl_compiler = "*"
tokio = { version = "1", features = ["rt-multi-thread", "macros"] }
