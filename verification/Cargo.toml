[package]
name = "eulerian_fluid"
version = "0.1.0"
edition = "2021"
publish = false

[dependencies]
hsv = "0.1"
pixels = "0.13"
winit = "0.28"
