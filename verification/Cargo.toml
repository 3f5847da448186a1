[package]
name = "dla_rust"
version = "0.1.0"
edition = "2021"
publish = false

[dependencies]
bincode = "1.3"
rand = "0.8"
clap = { version = "4", features = ["derive"] }
colored = "2"
thousands = "0.2"
log = "0.4"
env_logger = "0.10"
pollster = "0.2"
pixels = "0.11"
egui = "0.20"
egui-wgpu = "0.20"
egui-winit = { version = "0.20", default-features = false, features = ["links"] }
winit = "0.27"
winit_input_helper = "0.13"
