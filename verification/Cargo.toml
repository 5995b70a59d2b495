[package]
name = "diffuser"
version = "0.1.0"
edition = "2021"
publish = false

[dependencies]
line_drawing = "1"
circular-queue = "0.2"
env_logger = "0.10"
log = "0.4"
pixels = "0.11"
rayon = "1"
thiserror = "1"
winit = "0.27"
winit_input_helper = "0.13"
