[package]
name = "glow_painter"
version = "0.1.0"
edition = "2021"
publish = false

[dependencies]
egui = "0.14"
glow = "0.11"
glutin = "0.27"
