[package]
name = "raytracer"
version = "0.1.0"
edition = "2021"
publish = false

[dependencies]
image = { version = "0.23", default-features = false, features = ["png"] }
indicatif = { version = "0.15", features = ["with_rayon"] }
rand = "0.7"
rayon = "1"

[dev-dependencies]
float-cmp = "0.8"
