[package]
name = "shui"
version = "0.1.0"
edition = "2021"
publish = false

[dependencies]
gl = "0.11"
glutin = "0.19"
time = "0.1"
winit = "0.18"
