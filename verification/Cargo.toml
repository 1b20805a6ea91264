[package]
name = "tshirt_checker"
version = "0.1.0"
edition = "2021"
publish = false

[dependencies]
egui = "=0.27.2"
egui_extras = { version = "=0.27.2", features = ["image"] }
image = { version = "=0.24.9", default-features = false, features = ["png", "jpeg"] }
nalgebra = { version = "=0.32.6", default-features = false, features = ["std", "macros"] }
async-std = "=1.13.2"
web-time = "=1.1.0"
