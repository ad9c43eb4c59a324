[package]
name = "chip8"
version = "0.1.0"
edition = "2021"
publish = false

[dependencies]
crossbeam-channel = "0.5"
rand = "0.8"
eframe = { version = "0.22", default-features = false, features = ["glow"] }
env_logger = "0.10"
