[package]
name = "raytracer"
version = "0.1.0"
edition = "2021"
publish = false

[dependencies]
rand = "0.8"
image = { version = "0.24", default-features = false, features = ["png", "hdr", "pnm"] }
approx = "0.5"
float-cmp = "0.9"
egui = { version = "0.28", default-features = false }
