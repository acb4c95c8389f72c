[package]
name = "glsl_to_metal"
version = "0.1.0"
edition = "2021"
publish = false

[dependencies]
miniquad = "*"
