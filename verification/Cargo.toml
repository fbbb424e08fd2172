[package]
name = "raytracer"
version = "0.1.0"
edition = "2021"
publish = false

[dependencies]
colorful = "0.2"
image = { version = "0.23", default-features = false, features = ["png"] }
