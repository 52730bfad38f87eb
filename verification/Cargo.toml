[package]
name = "ruschess"
version = "0.1.0"
edition = "2021"
publish = false

[dependencies]
notan = { version = "=0.14.0", default-features = false, features = ["backend", "draw", "glsl-to-spirv"] }
