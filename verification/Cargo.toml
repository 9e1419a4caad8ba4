[package]
name = "chip8"
version = "0.1.0"
edition = "2021"
publish = false

[dependencies]
rand = "0.8"
winit = "0.28"
winit_input_helper = "0.14"
pixels = "0.12"
