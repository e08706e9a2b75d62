[package]
name = "softpipe"
version = "0.1.0"
edition = "2021"
publish = false

[dependencies]
eframe = { version = "=0.23.0", default-features = false, features = ["default_fonts", "glow", "x11"] }
egui = "=0.23.0"
image = "=0.24.9"
obj-rs = "0.7"
